//! Readable-content extraction from external web pages.
//!
//! Tags are matched on the ASCII-lowercased page, and positions found there
//! are used to cut the page's own text, so it keeps its case. The
//! markers searched for are ASCII, and the only characters beyond ASCII
//! whose full lowercase holds ASCII (the Kelvin sign, dotted capital I)
//! change length when lowercased; so on every page whose full lowercasing
//! keeps each character's length, matching on the fully lowercased page
//! finds the same positions, and on the others positions taken from the
//! lowercased text would not fit the page's own text.

use vstd::prelude::*;
use crate::text::{
    chars_of, find_char_from_spec, find_char_seq_from, find_from, find_seq_from, is_ascii_alnum,
    lemma_find_char_from_bounds, lemma_find_from_bounds, lower_chars, lower_seq, push_char,
    push_range, range_eq_str, str_views, string_of, string_of_range, trim, trim_range,
    is_alnum_char,
};

verus! {

pub open spec fn is_name_char(c: char) -> bool {
    is_ascii_alnum(c) || c == '-' || c == ':'
}

/// The first index at or after `i` that does not continue a tag name.
pub open spec fn name_end(s: Seq<char>, i: int) -> int
    decreases s.len() - i,
{
    if 0 <= i < s.len() && is_name_char(s[i]) {
        name_end(s, i + 1)
    } else {
        i
    }
}

pub proof fn lemma_name_end(s: Seq<char>, i: int)
    requires
        0 <= i <= s.len(),
    ensures
        i <= name_end(s, i) <= s.len(),
    decreases s.len() - i,
{
    if i < s.len() && is_name_char(s[i]) {
        lemma_name_end(s, i + 1);
    }
}

/// `name` is one of `tags`.
pub open spec fn listed(name: Seq<char>, tags: Seq<Seq<char>>) -> bool {
    exists|j: int| 0 <= j < tags.len() && #[trigger] tags[j] == name
}

/// Where the scan resumes after a noise block whose name ends at `after_open`:
/// just past the `>` that follows the closing tag, or right after the name
/// when the block is never closed.
pub open spec fn block_end(l: Seq<char>, name: Seq<char>, after_open: int) -> int {
    let close = "</"@ + name;
    match find_from(l, close, after_open) {
        Some(c) => {
            let end = c + close.len();
            match find_char_from_spec(l, '>', end) {
                Some(g) => g + 1,
                None => end,
            }
        },
        None => after_open,
    }
}

pub proof fn lemma_block_end(l: Seq<char>, name: Seq<char>, after_open: int)
    requires
        0 <= after_open <= l.len(),
    ensures
        after_open <= block_end(l, name, after_open) <= l.len(),
{
    let close = "</"@ + name;
    lemma_find_from_bounds(l, close, after_open);
    match find_from(l, close, after_open) {
        Some(c) => {
            lemma_find_char_from_bounds(l, '>', c + close.len());
        },
        None => {},
    }
}

/// The page text from `pos` on, with the listed blocks removed. `l` is the
/// lowercased page.
pub open spec fn stripped_from(h: Seq<char>, l: Seq<char>, tags: Seq<Seq<char>>, pos: int) -> Seq<
    char,
>
    decreases h.len() + 1 - pos,
{
    if pos < 0 || pos >= h.len() || l.len() != h.len() {
        Seq::empty()
    } else {
        match find_char_from_spec(l, '<', pos) {
            None => h.subrange(pos, h.len() as int),
            Some(start) => {
                proof {
                    lemma_find_char_from_bounds(l, '<', pos);
                    lemma_name_end(l, start + 1);
                }
                let ne = name_end(l, start + 1);
                let name = l.subrange(start + 1, ne);
                if name.len() == 0 || !listed(name, tags) {
                    h.subrange(pos, start) + seq!['<'] + stripped_from(h, l, tags, start + 1)
                } else {
                    proof {
                        lemma_block_end(l, name, ne);
                    }
                    h.subrange(pos, start) + stripped_from(h, l, tags, block_end(l, name, ne))
                }
            },
        }
    }
}

/// `strip_noise_tags`: the page with every listed block removed.
pub open spec fn stripped(h: Seq<char>, tags: Seq<Seq<char>>) -> Seq<char> {
    stripped_from(h, lower_seq(h), tags, 0)
}

fn name_end_exec(l: &Vec<char>, i: usize) -> (r: usize)
    requires
        i <= l@.len(),
    ensures
        r == name_end(l@, i as int),
{
    let mut j = i;
    while j < l.len() && (is_alnum_char(l[j]) || l[j] == '-' || l[j] == ':')
        invariant
            i <= j <= l@.len(),
            name_end(l@, i as int) == name_end(l@, j as int),
        decreases l@.len() - j,
    {
        j += 1;
    }
    j
}

fn is_listed(l: &Vec<char>, a: usize, b: usize, tags: &[&str]) -> (r: bool)
    requires
        a <= b <= l@.len(),
    ensures
        r == listed(l@.subrange(a as int, b as int), str_views(tags@)),
{
    let ghost tv = str_views(tags@);
    let mut j: usize = 0;
    while j < tags.len()
        invariant
            a <= b <= l@.len(),
            j <= tags@.len(),
            tv == str_views(tags@),
            forall|i: int| 0 <= i < j ==> #[trigger] tv[i] != l@.subrange(a as int, b as int),
        decreases tags@.len() - j,
    {
        if range_eq_str(l, a, b, tags[j]) {
            assert(tv[j as int] == tags@[j as int]@);
            return true;
        }
        j += 1;
    }
    false
}

/// Removes the blocks of the listed tags (navigation, footers, scripts...)
/// and keeps the rest of the page skeleton. An unclosed listed tag only has
/// its opening name skipped.
pub fn strip_noise_tags(html: &str, tags: &[&str]) -> (r: String)
    ensures
        r@ == stripped(html@, str_views(tags@)),
{
    let ghost tv = str_views(tags@);
    let h = chars_of(html);
    let l = lower_chars(&h);
    let n = h.len();
    let mut out = String::new();
    let mut pos: usize = 0;
    while pos < n
        invariant
            n == h@.len() == l@.len(),
            h@ == html@,
            l@ == lower_seq(h@),
            tv == str_views(tags@),
            pos <= n,
            stripped(html@, tv) == out@ + stripped_from(h@, l@, tv, pos as int),
        decreases n - pos,
    {
        let ghost before = out@;
        match find_char_seq_from(&l, '<', pos) {
            None => {
                push_range(&mut out, &h, pos, n);
                assert(stripped_from(h@, l@, tv, n as int) == Seq::<char>::empty());
                assert(out@ =~= before + stripped_from(h@, l@, tv, pos as int));
                pos = n;
            },
            Some(start) => {
                proof {
                    lemma_find_char_from_bounds(l@, '<', pos as int);
                    lemma_name_end(l@, start + 1);
                }
                push_range(&mut out, &h, pos, start);
                let ne = name_end_exec(&l, start + 1);
                if ne == start + 1 || !is_listed(&l, start + 1, ne, tags) {
                    push_char(&mut out, '<');
                    assert(out@ =~= before + h@.subrange(pos as int, start as int) + seq!['<']);
                    pos = start + 1;
                } else {
                    let ghost name = l@.subrange(start + 1, ne as int);
                    let mut close: Vec<char> = Vec::new();
                    close.push('<');
                    close.push('/');
                    let mut k = start + 1;
                    while k < ne
                        invariant
                            start + 1 <= k <= ne <= l@.len(),
                            close@ == seq!['<', '/'] + l@.subrange(start + 1, k as int),
                        decreases ne - k,
                    {
                        close.push(l[k]);
                        k += 1;
                        assert(close@ =~= seq!['<', '/'] + l@.subrange(start + 1, k as int));
                    }
                    proof {
                        reveal_strlit("</");
                        assert(close@ =~= "</"@ + name);
                        lemma_block_end(l@, name, ne as int);
                        lemma_find_from_bounds(l@, close@, ne as int);
                    }
                    let next = match find_seq_from(&l, &close, ne) {
                        Some(c) => {
                            proof {
                                lemma_find_char_from_bounds(l@, '>', c + close@.len());
                            }
                            let end = c + close.len();
                            match find_char_seq_from(&l, '>', end) {
                                Some(g) => g + 1,
                                None => end,
                            }
                        },
                        None => ne,
                    };
                    assert(next == block_end(l@, name, ne as int));
                    pos = next;
                }
            },
        }
    }
    out
}

/// The inner HTML of the first `<tag ...>...</tag>` pair.
pub open spec fn tag_content(h: Seq<char>, tag: Seq<char>) -> Option<Seq<char>> {
    let l = lower_seq(h);
    match find_from(l, "<"@ + tag, 0) {
        None => None,
        Some(start) => match find_char_from_spec(l, '>', start) {
            None => None,
            Some(gt) => match find_from(l, "</"@ + tag + ">"@, gt + 1) {
                None => None,
                Some(c) => Some(h.subrange(gt + 1, c)),
            },
        },
    }
}

fn pattern(prefix: &str, tag: &str, suffix: &str) -> (r: Vec<char>)
    ensures
        r@ == prefix@ + tag@ + suffix@,
{
    let mut r = chars_of(prefix);
    let t = chars_of(tag);
    let s = chars_of(suffix);
    let mut i: usize = 0;
    let ghost p0 = r@;
    while i < t.len()
        invariant
            i <= t@.len(),
            r@ == p0 + t@.take(i as int),
        decreases t@.len() - i,
    {
        r.push(t[i]);
        i += 1;
        assert(r@ =~= p0 + t@.take(i as int));
    }
    let ghost p1 = r@;
    let mut j: usize = 0;
    while j < s.len()
        invariant
            j <= s@.len(),
            r@ == p1 + s@.take(j as int),
        decreases s@.len() - j,
    {
        r.push(s[j]);
        j += 1;
        assert(r@ =~= p1 + s@.take(j as int));
    }
    assert(t@.take(t@.len() as int) =~= t@);
    assert(s@.take(s@.len() as int) =~= s@);
    assert(r@ =~= prefix@ + tag@ + suffix@);
    r
}

/// The inner HTML of the first matching open/close tag pair.
pub fn extract_tag_content(html: &str, tag: &str) -> (r: Option<String>)
    ensures
        match r {
            Some(s) => tag_content(html@, tag@) == Some(s@),
            None => tag_content(html@, tag@) == None::<Seq<char>>,
        },
{
    let h = chars_of(html);
    let l = lower_chars(&h);
    let open = pattern("<", tag, "");
    let close = pattern("</", tag, ">");
    proof {
        reveal_strlit("");
        assert(""@ =~= Seq::<char>::empty());
        assert(open@ =~= "<"@ + tag@);
    }
    let start = match find_seq_from(&l, &open, 0) {
        Some(s) => s,
        None => return None,
    };
    proof {
        lemma_find_from_bounds(l@, open@, 0);
    }
    let gt = match find_char_seq_from(&l, '>', start) {
        Some(g) => g,
        None => return None,
    };
    proof {
        lemma_find_char_from_bounds(l@, '>', start as int);
    }
    let c = match find_seq_from(&l, &close, gt + 1) {
        Some(c) => c,
        None => return None,
    };
    proof {
        lemma_find_from_bounds(l@, close@, gt + 1);
    }
    Some(string_of_range(&h, gt + 1, c))
}

/// The trimmed text of the page `<title>`, if non-empty.
pub open spec fn html_title(h: Seq<char>) -> Option<Seq<char>> {
    let l = lower_seq(h);
    match find_from(l, "<title>"@, 0) {
        None => None,
        Some(i) => {
            let start = i + "<title>"@.len();
            match find_from(l, "</title>"@, start) {
                None => None,
                Some(end) => {
                    let t = trim(h.subrange(start, end));
                    if t.len() == 0 {
                        None
                    } else {
                        Some(t)
                    }
                },
            }
        },
    }
}

pub fn extract_html_title(html: &str) -> (r: Option<String>)
    ensures
        match r {
            Some(s) => html_title(html@) == Some(s@),
            None => html_title(html@) == None::<Seq<char>>,
        },
{
    let h = chars_of(html);
    let l = lower_chars(&h);
    let open = chars_of("<title>");
    let close = chars_of("</title>");
    let i = match find_seq_from(&l, &open, 0) {
        Some(i) => i,
        None => return None,
    };
    proof {
        lemma_find_from_bounds(l@, open@, 0);
        assert(i + open@.len() <= l@.len());
    }
    let ln = l.len();
    assert(i + open.len() <= ln);
    let start = i + open.len();
    let end = match find_seq_from(&l, &close, start) {
        Some(e) => e,
        None => return None,
    };
    proof {
        lemma_find_from_bounds(l@, close@, start as int);
    }
    let (a, b) = trim_range(&h, start, end);
    if a == b {
        None
    } else {
        Some(string_of_range(&h, a, b))
    }
}

/// The blocks `extract_readable_content` removes.
pub open spec fn noise_tags() -> Seq<Seq<char>> {
    seq![
        "script"@,
        "style"@,
        "nav"@,
        "header"@,
        "footer"@,
        "aside"@,
        "iframe"@,
        "form"@,
        "noscript"@,
    ]
}

/// The readable part of a page: the noise blocks removed, then the inner
/// HTML of the first `<article>`, else of the first `<main>`, else the
/// whole stripped page.
pub open spec fn readable_content(h: Seq<char>) -> Seq<char> {
    let cleaned = stripped(h, noise_tags());
    match tag_content(cleaned, "article"@) {
        Some(x) => x,
        None => match tag_content(cleaned, "main"@) {
            Some(x) => x,
            None => cleaned,
        },
    }
}

pub fn extract_readable_content(html: &str) -> (r: String)
    ensures
        r@ == readable_content(html@),
{
    let tags = ["script", "style", "nav", "header", "footer", "aside", "iframe", "form", "noscript"];
    assert(str_views(tags@) =~= noise_tags());
    let cleaned = strip_noise_tags(html, &tags);
    if let Some(inner) = extract_tag_content(cleaned.as_str(), "article") {
        return inner;
    }
    if let Some(inner) = extract_tag_content(cleaned.as_str(), "main") {
        return inner;
    }
    cleaned
}

/// `c` occurs nowhere in `s`.
pub open spec fn lacks(s: Seq<char>, c: char) -> bool {
    forall|i: int| 0 <= i < s.len() ==> s[i] != c
}

proof fn lemma_lower_keeps_lacking(s: Seq<char>)
    requires
        lacks(s, '<'),
    ensures
        lacks(lower_seq(s), '<'),
        lower_seq(s).len() == s.len(),
{
    assert forall|i: int| 0 <= i < s.len() implies lower_seq(s)[i] != '<' by {
        let c = s[i];
        if crate::text::is_ascii_upper(c) {
            assert((c as u32) + 32 >= 97);
        }
    }
}

proof fn lemma_find_char_at_first(s: Seq<char>, c: char, from: int, j: int)
    requires
        0 <= from <= j < s.len(),
        s[j] == c,
        forall|i: int| from <= i < j ==> s[i] != c,
    ensures
        find_char_from_spec(s, c, from) == Some(j),
    decreases j - from,
{
    if from < j {
        lemma_find_char_at_first(s, c, from + 1, j);
    }
}

proof fn lemma_find_char_absent(s: Seq<char>, c: char, from: int)
    requires
        0 <= from,
        forall|i: int| from <= i < s.len() ==> s[i] != c,
    ensures
        find_char_from_spec(s, c, from) is None,
    decreases s.len() + 1 - from,
{
    if from < s.len() {
        lemma_find_char_absent(s, c, from + 1);
    }
}

proof fn lemma_find_at_first(s: Seq<char>, p: Seq<char>, from: int, j: int)
    requires
        0 <= from <= j,
        j + p.len() <= s.len(),
        p.len() > 0,
        s.subrange(j, j + p.len()) == p,
        forall|i: int| from <= i < j ==> s[i] != p[0],
    ensures
        find_from(s, p, from) == Some(j),
    decreases j - from,
{
    if from < j {
        assert(s.subrange(from, from + p.len())[0] == s[from]);
        lemma_find_at_first(s, p, from + 1, j);
    }
}

proof fn lemma_find_absent(s: Seq<char>, p: Seq<char>, from: int)
    requires
        0 <= from,
        p.len() > 0,
        forall|i: int| from <= i < s.len() ==> s[i] != p[0],
    ensures
        find_from(s, p, from) is None,
    decreases s.len() + 1 - from,
{
    if from + p.len() <= s.len() {
        assert(s.subrange(from, from + p.len())[0] == s[from]);
        lemma_find_absent(s, p, from + 1);
    }
}

proof fn lemma_name_end_at(s: Seq<char>, i: int, j: int)
    requires
        0 <= i <= j < s.len(),
        forall|k: int| i <= k < j ==> is_name_char(s[k]),
        !is_name_char(s[j]),
    ensures
        name_end(s, i) == j,
    decreases j - i,
{
    if i < j {
        lemma_name_end_at(s, i + 1, j);
    }
}

/// The blocks removed from a page, each named by lowercase letters.
proof fn lemma_noise_tag(tag: Seq<char>)
    requires
        tag == "script"@ || tag == "style"@ || tag == "nav"@ || tag == "header"@ || tag == "footer"@
            || tag == "aside"@ || tag == "iframe"@ || tag == "form"@ || tag == "noscript"@,
    ensures
        tag.len() > 0,
        forall|i: int| 0 <= i < tag.len() ==> crate::text::is_ascii_lower(#[trigger] tag[i]),
        listed(tag, noise_tags()),
{
    reveal_strlit("script");
    reveal_strlit("style");
    reveal_strlit("nav");
    reveal_strlit("header");
    reveal_strlit("footer");
    reveal_strlit("aside");
    reveal_strlit("iframe");
    reveal_strlit("form");
    reveal_strlit("noscript");
    let n = noise_tags();
    if tag == "script"@ {
        assert(n[0] == tag);
    } else if tag == "style"@ {
        assert(n[1] == tag);
    } else if tag == "nav"@ {
        assert(n[2] == tag);
    } else if tag == "header"@ {
        assert(n[3] == tag);
    } else if tag == "footer"@ {
        assert(n[4] == tag);
    } else if tag == "aside"@ {
        assert(n[5] == tag);
    } else if tag == "iframe"@ {
        assert(n[6] == tag);
    } else if tag == "form"@ {
        assert(n[7] == tag);
    } else {
        assert(n[8] == tag);
    }
}

/// `h` is the text `before`, then a `tag` block around `inner`, then
/// `after`.
pub open spec fn noise_page_layout(h: Seq<char>, before: Seq<char>, tag: Seq<char>, inner: Seq<char>, after: Seq<char>) -> bool {
    let b = before.len() as int;
    let ne = b + 1 + tag.len();
    let cpos = ne + 1 + inner.len();
    let end = cpos + 2 + tag.len();
    &&& h.len() == end + 1 + after.len()
    &&& forall|i: int| 0 <= i < b ==> h[i] == before[i]
    &&& h[b] == '<'
    &&& forall|k: int| b + 1 <= k < ne ==> h[k] == tag[k - b - 1]
    &&& h[ne] == '>'
    &&& forall|k: int| ne < k < cpos ==> h[k] == inner[k - ne - 1]
    &&& h[cpos] == '<' && h[cpos + 1] == '/'
    &&& forall|k: int| cpos + 2 <= k < end ==> h[k] == tag[k - cpos - 2]
    &&& h[end] == '>'
    &&& h.subrange(end + 1, h.len() as int) == after
    &&& h.subrange(0, b) == before
}

proof fn lemma_noise_page_layout(before: Seq<char>, tag: Seq<char>, inner: Seq<char>, after: Seq<char>)
    ensures
        noise_page_layout(
            before + seq!['<'] + tag + seq!['>'] + inner + seq!['<', '/'] + tag + seq!['>'] + after,
            before,
            tag,
            inner,
            after,
        ),
{
    let a1 = before + seq!['<'];
    let a2 = a1 + tag;
    let a3 = a2 + seq!['>'];
    let a4 = a3 + inner;
    let a5 = a4 + seq!['<', '/'];
    let a6 = a5 + tag;
    let a7 = a6 + seq!['>'];
    let h = a7 + after;
    assert(h.subrange(a7.len() as int, h.len() as int) =~= after);
    assert(h.subrange(0, before.len() as int) =~= before);
}

proof fn lemma_noise_block_stripped(h: Seq<char>, before: Seq<char>, tag: Seq<char>, inner: Seq<char>, after: Seq<char>)
    requires
        tag == "script"@ || tag == "style"@ || tag == "nav"@ || tag == "header"@ || tag == "footer"@
            || tag == "aside"@ || tag == "iframe"@ || tag == "form"@ || tag == "noscript"@,
        noise_page_layout(h, before, tag, inner, after),
        lacks(before, '<'),
        lacks(inner, '<'),
        lacks(after, '<'),
    ensures
        stripped(h, noise_tags()) == before + after,
{
    lemma_noise_tag(tag);
    let close = seq!['<', '/'] + tag;
    let l = lower_seq(h);
    let b = before.len() as int;
    let t = tag.len() as int;
    let ne = b + 1 + t;
    let cpos = ne + 1 + inner.len();
    let end = cpos + close.len();
    let total = end + 1;
    lemma_lower_keeps_lacking(before);
    lemma_lower_keeps_lacking(inner);
    lemma_lower_keeps_lacking(after);
    assert(l.len() == h.len());
    assert forall|i: int| 0 <= i < b implies l[i] != '<' by {
        assert(lower_seq(before)[i] == crate::text::lower(before[i]));
    }
    assert(l[b] == '<');
    lemma_find_char_at_first(l, '<', 0, b);
    assert forall|k: int| b + 1 <= k < ne implies is_name_char(l[k]) && l[k] == tag[k - b - 1] by {}
    lemma_name_end_at(l, b + 1, ne);
    let name = l.subrange(b + 1, ne);
    assert(name =~= tag);
    assert forall|k: int| ne <= k < cpos implies l[k] != '<' by {
        if k > ne {
            assert(lower_seq(inner)[k - ne - 1] == crate::text::lower(inner[k - ne - 1]));
        }
    }
    assert forall|k: int| 0 <= k < close.len() implies l[cpos + k] == close[k] by {
        if k >= 2 {
            assert(close[k] == tag[k - 2]);
        }
    }
    assert(l.subrange(cpos, cpos + close.len()) =~= close);
    lemma_find_at_first(l, close, ne, cpos);
    lemma_find_char_at_first(l, '>', end, end);
    reveal_strlit("</");
    assert("</"@ + name =~= close);
    assert(block_end(l, name, ne) == total);
    assert forall|k: int| total <= k < l.len() implies l[k] != '<' by {
        assert(h[k] == h.subrange(total, h.len() as int)[k - total]);
        assert(lower_seq(after)[k - total] == crate::text::lower(after[k - total]));
    }
    lemma_find_char_absent(l, '<', total);
    assert(stripped_from(h, l, noise_tags(), total) =~= after);
    assert(stripped_from(h, l, noise_tags(), 0) == h.subrange(0, b) + stripped_from(h, l, noise_tags(), total));
}

/// Scripts, styles, navigation, headers, footers, asides, frames, forms and
/// `noscript` blocks are not readable content: a page made of text, one
/// such block and more text reads as the two texts joined.
pub proof fn law_noise_blocks_removed(before: Seq<char>, tag: Seq<char>, inner: Seq<char>, after: Seq<char>)
    requires
        tag == "script"@ || tag == "style"@ || tag == "nav"@ || tag == "header"@ || tag == "footer"@
            || tag == "aside"@ || tag == "iframe"@ || tag == "form"@ || tag == "noscript"@,
        lacks(before, '<'),
        lacks(inner, '<'),
        lacks(after, '<'),
    ensures
        readable_content(before + seq!['<'] + tag + seq!['>'] + inner + seq!['<', '/'] + tag + seq!['>'] + after)
            == before + after,
{
    lemma_noise_page_layout(before, tag, inner, after);
    lemma_noise_block_stripped(
        before + seq!['<'] + tag + seq!['>'] + inner + seq!['<', '/'] + tag + seq!['>'] + after,
        before,
        tag,
        inner,
        after,
    );
    let cleaned = before + after;
    assert(lacks(cleaned, '<')) by {
        assert forall|i: int| 0 <= i < cleaned.len() implies cleaned[i] != '<' by {
            if i < before.len() {
                assert(cleaned[i] == before[i]);
            } else {
                assert(cleaned[i] == after[i - before.len()]);
            }
        }
    }
    lemma_lower_keeps_lacking(cleaned);
    reveal_strlit("<");
    let lc = lower_seq(cleaned);
    assert(("<"@ + "article"@)[0] == '<');
    assert(("<"@ + "main"@)[0] == '<');
    lemma_find_absent(lc, "<"@ + "article"@, 0);
    lemma_find_absent(lc, "<"@ + "main"@, 0);
}

} // verus!
