//! Download file names and paths: what an APK may be saved as, how long a
//! name may be on Windows, and which paths file operations accept.
//!
//! Platform-dependent behaviour takes the platform as an argument
//! (`windows`), so each rule can be stated for both.

use vstd::prelude::*;
use crate::feed::json_opt;
use crate::json::{get, get_opt, json_view, lemma_views, Json, JsonNumber, JsonV};
use crate::jsontext::number_text;
use crate::outside::{
    url_append_pair, url_append_pair_of, path_components_equal, path_extension, path_file_name, path_file_stem, path_is_absolute,
    path_with_file_name, status_text, status_text_of,
};
use crate::text::{
    chars_end_with, chars_of, contains, dec, ends_with, eq_ic, is_control, lower_chars, lower_seq, occurs_at, starts_with,
    push_char, push_range, push_str, strip_leading, strip_leading_range, strip_trailing,
    strip_trailing_range, str_views, trim, trim_range, upper_seq,
};
use crate::url::before_char;

verus! {

// ---------------------------------------------------------------------------
// Reserved names
// ---------------------------------------------------------------------------

/// `s` without trailing spaces and dots.
pub open spec fn strip_space_dot(s: Seq<char>) -> Seq<char>
    decreases s.len(),
{
    if s.len() > 0 && (s.last() == ' ' || s.last() == '.') {
        strip_space_dot(s.drop_last())
    } else {
        s
    }
}

/// The part of a file name Windows compares with its device names.
pub open spec fn device_base(name: Seq<char>) -> Seq<char> {
    upper_seq(strip_space_dot(before_char(name, '.')))
}

/// `CON`, `PRN`, `AUX`, `NUL`, `COM1`-`COM9`, `LPT1`-`LPT9`.
pub open spec fn is_device_name(b: Seq<char>) -> bool {
    ||| b == "CON"@
    ||| b == "PRN"@
    ||| b == "AUX"@
    ||| b == "NUL"@
    ||| (b.len() == 4 && (b.take(3) == "COM"@ || b.take(3) == "LPT"@) && '1' <= b[3] <= '9')
}

/// A file name Windows reserves for a device (never on other platforms).
pub open spec fn reserved_on(name: Seq<char>, windows: bool) -> bool {
    windows && is_device_name(device_base(name))
}

/// Whether Windows reserves this file name for a device: its part before
/// the first `.`, without trailing spaces, is a device name in any case.
pub fn is_windows_reserved_file_name(file_name: &str, windows: bool) -> (r: bool)
    ensures
        r == reserved_on(file_name@, windows),
{
    if !windows {
        return false;
    }
    proof {
        reveal_strlit("CON");
        reveal_strlit("PRN");
        reveal_strlit("AUX");
        reveal_strlit("NUL");
        reveal_strlit("COM");
        reveal_strlit("LPT");
    }
    let cs = chars_of(file_name);
    let n = cs.len();
    let dot = match crate::text::find_char_from(&cs, '.', 0, n) {
        Some(i) => {
            proof {
                crate::text::lemma_find_char_at(cs@, '.', i as int);
            }
            i
        },
        None => {
            proof {
                crate::text::lemma_find_char_none(cs@, '.');
            }
            n
        },
    };
    assert(cs@.subrange(0, dot as int) =~= before_char(file_name@, '.'));
    let mut end = dot;
    while end > 0 && (cs[end - 1] == ' ' || cs[end - 1] == '.')
        invariant
            end <= dot <= cs@.len(),
            strip_space_dot(cs@.subrange(0, dot as int)) == strip_space_dot(
                cs@.subrange(0, end as int),
            ),
        decreases end,
    {
        assert(cs@.subrange(0, end as int).drop_last() =~= cs@.subrange(0, end - 1));
        end -= 1;
    }
    let mut base: Vec<char> = Vec::new();
    let mut i: usize = 0;
    while i < end
        invariant
            i <= end <= cs@.len(),
            base@ == upper_seq(cs@.subrange(0, i as int)),
        decreases end - i,
    {
        base.push(crate::text::upper_char(cs[i]));
        i += 1;
        assert(base@ =~= upper_seq(cs@.subrange(0, i as int)));
    }
    let ghost b = base@;
    assert(b == device_base(file_name@));
    if crate::text::chars_eq_str(&base, "CON") || crate::text::chars_eq_str(&base, "PRN")
        || crate::text::chars_eq_str(&base, "AUX") || crate::text::chars_eq_str(&base, "NUL") {
        return true;
    }
    if base.len() == 4 {
        let com = base[0] == 'C' && base[1] == 'O' && base[2] == 'M';
        let lpt = base[0] == 'L' && base[1] == 'P' && base[2] == 'T';
        proof {
            assert("COM"@ =~= seq!['C', 'O', 'M']);
            assert("LPT"@ =~= seq!['L', 'P', 'T']);
            if com {
                assert(b.take(3) =~= "COM"@);
            }
            if b.take(3) == "COM"@ {
                assert(b[0] == b.take(3)[0] && b[1] == b.take(3)[1] && b[2] == b.take(3)[2]);
            }
            if lpt {
                assert(b.take(3) =~= "LPT"@);
            }
            if b.take(3) == "LPT"@ {
                assert(b[0] == b.take(3)[0] && b[1] == b.take(3)[1] && b[2] == b.take(3)[2]);
            }
        }
        return (com || lpt) && '1' <= base[3] && base[3] <= '9';
    }
    false
}

// ---------------------------------------------------------------------------
// APK file names
// ---------------------------------------------------------------------------

/// Characters a download file name may not hold.
pub open spec fn is_bad_name_char(c: char) -> bool {
    is_control(c) || c == '<' || c == '>' || c == ':' || c == '"' || c == '/' || c == '\\' || c
        == '|' || c == '?' || c == '*'
}

pub open spec fn name_char(c: char) -> char {
    if is_bad_name_char(c) {
        '_'
    } else {
        c
    }
}

/// The first 160 characters, each bad one replaced with `_`, trimmed, and
/// without leading or trailing dots.
pub open spec fn cleaned_download_name(s: Seq<char>) -> Seq<char> {
    let head = if s.len() <= 160 {
        s
    } else {
        s.take(160)
    };
    strip_trailing(strip_leading(trim(head.map_values(|c: char| name_char(c))), '.'), '.')
}

/// Whether a name already ends with a package extension, in any case.
pub open spec fn has_package_extension(name: Seq<char>) -> bool {
    let l = lower_seq(name);
    ends_with(l, ".apk"@) || ends_with(l, ".xapk"@) || ends_with(l, ".apks"@)
}

/// The file name an APK download is saved as, when the cleaned name is
/// usable: `.apk` added when it has no package extension, `_` put in front
/// when Windows reserves it.
pub open spec fn apk_file_name(name: Seq<char>, windows: bool) -> Option<Seq<char>> {
    let safe = cleaned_download_name(name);
    if safe.len() == 0 || safe == "."@ || safe == ".."@ || contains(safe, ".."@) {
        None
    } else {
        let with_ext = if has_package_extension(safe) {
            safe
        } else {
            safe + ".apk"@
        };
        if reserved_on(with_ext, windows) {
            Some(seq!['_'] + with_ext)
        } else {
            Some(with_ext)
        }
    }
}

/// The message for a download name or path that is refused.
pub open spec fn bad_download_name_message() -> Seq<char> {
    "下载文件名不合法"@
}

/// The file name an APK is saved as: at most 160 characters, characters
/// that cannot stand in a file name replaced, a package extension ensured,
/// and Windows device names avoided. Names that end up empty or hold `..`
/// are refused.
pub fn sanitize_apk_file_name(file_name: &str, windows: bool) -> (r: Result<String, String>)
    ensures
        match apk_file_name(file_name@, windows) {
            Some(n) => r matches Ok(s) && s@ == n,
            None => r matches Err(e) && e@ == bad_download_name_message(),
        },
{
    let cs = chars_of(file_name);
    let n: usize = if cs.len() <= 160 {
        cs.len()
    } else {
        160
    };
    let ghost head = if file_name@.len() <= 160 {
        file_name@
    } else {
        file_name@.take(160)
    };
    assert(head =~= cs@.take(n as int));
    let mut mapped: Vec<char> = Vec::new();
    let mut i: usize = 0;
    while i < n
        invariant
            i <= n <= cs@.len(),
            head == cs@.take(n as int),
            mapped@ == cs@.take(i as int).map_values(|c: char| name_char(c)),
        decreases n - i,
    {
        let c = cs[i];
        let bad = crate::text::is_control_char(c) || c == '<' || c == '>' || c == ':' || c == '"'
            || c == '/' || c == '\\' || c == '|' || c == '?' || c == '*';
        mapped.push(
            if bad {
                '_'
            } else {
                c
            },
        );
        i += 1;
        assert(mapped@ =~= cs@.take(i as int).map_values(|c: char| name_char(c)));
    }
    assert(mapped@ =~= head.map_values(|c: char| name_char(c)));
    let m = mapped.len();
    let (a, b) = trim_range(&mapped, 0, m);
    assert(mapped@.subrange(0, m as int) =~= mapped@);
    let a2 = strip_leading_range(&mapped, a, b, '.');
    let b2 = strip_trailing_range(&mapped, a2, b, '.');
    let ghost safe = mapped@.subrange(a2 as int, b2 as int);
    assert(safe == cleaned_download_name(file_name@));
    let safe_vec = {
        let mut v: Vec<char> = Vec::new();
        let mut k = a2;
        while k < b2
            invariant
                a2 <= k <= b2 <= mapped@.len(),
                v@ == mapped@.subrange(a2 as int, k as int),
            decreases b2 - k,
        {
            v.push(mapped[k]);
            k += 1;
            assert(v@ =~= mapped@.subrange(a2 as int, k as int));
        }
        v
    };
    proof {
        reveal_strlit(".");
        reveal_strlit("..");
    }
    if safe_vec.len() == 0 || crate::text::chars_eq_str(&safe_vec, ".")
        || crate::text::chars_eq_str(&safe_vec, "..") || crate::text::chars_contain(&safe_vec, "..") {
        return Err("下载文件名不合法".to_string());
    }
    let lower = lower_chars(&safe_vec);
    let mut out = String::new();
    push_range(&mut out, &safe_vec, 0, safe_vec.len());
    assert(safe_vec@.subrange(0, safe_vec@.len() as int) =~= safe_vec@);
    if !(chars_end_with(&lower, ".apk") || chars_end_with(&lower, ".xapk") || chars_end_with(
        &lower,
        ".apks",
    )) {
        push_str(&mut out, ".apk");
    }
    if is_windows_reserved_file_name(out.as_str(), windows) {
        let mut prefixed = String::new();
        push_char(&mut prefixed, '_');
        push_str(&mut prefixed, out.as_str());
        return Ok(prefixed);
    }
    Ok(out)
}

// ---------------------------------------------------------------------------
// Name length on Windows
// ---------------------------------------------------------------------------

/// UTF-16 code units of one character.
pub open spec fn utf16_units(c: char) -> nat {
    if c as u32 > 0xffff {
        2
    } else {
        1
    }
}

/// UTF-16 code units of a text.
pub open spec fn utf16_len(s: Seq<char>) -> nat
    decreases s.len(),
{
    if s.len() == 0 {
        0
    } else {
        utf16_units(s[0]) + utf16_len(s.drop_first())
    }
}

/// The longest prefix of `s` that fits in `budget` UTF-16 units.
pub open spec fn utf16_prefix(s: Seq<char>, budget: int) -> Seq<char>
    decreases s.len(),
{
    if s.len() == 0 || utf16_units(s[0]) > budget {
        Seq::empty()
    } else {
        seq![s[0]] + utf16_prefix(s.drop_first(), budget - utf16_units(s[0]))
    }
}

/// Longest full path, in UTF-16 units, a download may have on Windows.
pub open spec fn max_path_units() -> int {
    240
}

/// Why a download name cannot be shortened enough.
pub open spec fn directory_too_long_message() -> Seq<char> {
    "下载目录路径过长，请选择更短的目录"@
}

pub open spec fn name_too_long_message() -> Seq<char> {
    "下载文件名过长且无法缩短"@
}

/// A download name shortened so that `<dir>\<stem>.<ext>.part` stays
/// within 240 UTF-16 units: the stem is cut, the extension kept.
pub open spec fn shortened_name(dir: Seq<char>, stem: Option<Seq<char>>, ext: Option<Seq<char>>) -> Result<
    Seq<char>,
    Seq<char>,
> {
    let e = match ext {
        Some(e) => e,
        None => "apk"@,
    };
    let suffix = seq!['.'] + e;
    let st = match stem {
        Some(s) => s,
        None => "coolapk"@,
    };
    let reserved = utf16_len(dir) + 1 + utf16_len(suffix) + 5;
    let budget = if reserved >= max_path_units() {
        0
    } else {
        max_path_units() - reserved
    };
    if budget == 0 {
        Err(directory_too_long_message())
    } else {
        let short = utf16_prefix(st, budget);
        if short.len() == 0 {
            Err(name_too_long_message())
        } else {
            Ok(short + suffix)
        }
    }
}

/// UTF-16 units of a text, or `None` when there are more than `cap`.
fn utf16_len_capped(cs: &Vec<char>, cap: usize) -> (r: Option<usize>)
    ensures
        match r {
            Some(n) => n == utf16_len(cs@) && n <= cap,
            None => utf16_len(cs@) > cap,
        },
{
    let mut total: usize = 0;
    let mut i: usize = 0;
    assert(cs@.skip(0) =~= cs@);
    while i < cs.len()
        invariant
            i <= cs@.len(),
            total <= cap,
            utf16_len(cs@) == total + utf16_len(cs@.skip(i as int)),
        decreases cs@.len() - i,
    {
        let u: usize = if cs[i] as u32 > 0xffff {
            2
        } else {
            1
        };
        assert(cs@.skip(i as int).drop_first() =~= cs@.skip(i + 1));
        if u > cap - total {
            return None;
        }
        total = total + u;
        i += 1;
    }
    assert(cs@.skip(i as int) =~= Seq::<char>::empty());
    Some(total)
}

/// Cuts a download name so the full partial-file path fits in 240 UTF-16
/// units on Windows. `stem` and `extension` are the name's parts as
/// `Path::file_stem` and `Path::extension` read them.
pub fn shorten_download_file_name(target_dir: &str, stem: Option<&str>, extension: Option<&str>) -> (r:
    Result<String, String>)
    ensures
        match shortened_name(
            target_dir@,
            match stem {
                Some(s) => Some(s@),
                None => None,
            },
            match extension {
                Some(e) => Some(e@),
                None => None,
            },
        ) {
            Ok(n) => r matches Ok(s) && s@ == n,
            Err(m) => r matches Err(e) && e@ == m,
        },
{
    let mut suffix = String::new();
    push_char(&mut suffix, '.');
    match extension {
        Some(e) => push_str(&mut suffix, e),
        None => push_str(&mut suffix, "apk"),
    }
    let st: &str = match stem {
        Some(s) => s,
        None => "coolapk",
    };
    let dir_units = utf16_len_capped(&chars_of(target_dir), 240);
    let suffix_units = utf16_len_capped(&chars_of(suffix.as_str()), 240);
    let budget: usize = match (dir_units, suffix_units) {
        (Some(d), Some(s)) => if d + 1 + s + 5 >= 240 {
            0
        } else {
            240 - (d + 1 + s + 5)
        },
        _ => 0,
    };
    if budget == 0 {
        return Err("下载目录路径过长，请选择更短的目录".to_string());
    }
    let sc = chars_of(st);
    let mut out = String::new();
    let mut used: usize = 0;
    let mut i: usize = 0;
    assert(sc@.skip(0) =~= sc@);
    while i < sc.len()
        invariant
            i <= sc@.len(),
            out@.len() == i,
            used <= budget,
            utf16_prefix(sc@, budget as int) == out@ + utf16_prefix(
                sc@.skip(i as int),
                budget - used,
            ),
        ensures
            out@ == utf16_prefix(sc@, budget as int),
        decreases sc@.len() - i,
    {
        let c = sc[i];
        let u: usize = if c as u32 > 0xffff {
            2
        } else {
            1
        };
        let ghost rest = sc@.skip(i as int);
        assert(rest[0] == c);
        assert(rest.drop_first() =~= sc@.skip(i + 1));
        if u > budget - used {
            assert(utf16_prefix(rest, budget - used) =~= Seq::<char>::empty());
            break;
        }
        push_char(&mut out, c);
        used = used + u;
        i += 1;
        assert(utf16_prefix(sc@, budget as int) =~= out@ + utf16_prefix(
            sc@.skip(i as int),
            budget - used,
        ));
        if i == sc.len() {
            assert(sc@.skip(i as int) =~= Seq::<char>::empty());
        }
    }

    if i == 0 {
        return Err("下载文件名过长且无法缩短".to_string());
    }
    push_str(&mut out, suffix.as_str());
    Ok(out)
}

/// On Windows, cuts a download name so the partial file's full path fits
/// in 240 UTF-16 units; on other platforms keeps it.
pub fn constrain_windows_download_file_name(target_dir: &str, file_name: String, windows: bool) -> (r:
    Result<String, String>)
    ensures
        !windows ==> r == Ok::<String, String>(file_name),
        windows ==> exists|stem: Option<Seq<char>>, ext: Option<Seq<char>>|
            (stem matches Some(s) ==> contains(file_name@, s)) && (ext matches Some(e) ==> contains(
                file_name@,
                seq!['.'] + e,
            )) && match #[trigger] shortened_name(target_dir@, stem, ext) {
                Ok(n) => r matches Ok(s) && s@ == n,
                Err(m) => r matches Err(e) && e@ == m,
            },
        windows && plain_component(file_name@) ==> match shortened_name(
            target_dir@,
            Some(name_stem(file_name@)),
            name_extension(file_name@),
        ) {
            Ok(n) => r matches Ok(s) && s@ == n,
            Err(m) => r matches Err(e) && e@ == m,
        },
{
    if !windows {
        return Ok(file_name);
    }
    proof {
        if plain_component(file_name@) {
            lemma_plain_is_portable(file_name@);
        }
    }
    let ext = path_extension(file_name.as_str());
    let stem = path_file_stem(file_name.as_str());
    let ext_ref: Option<&str> = match &ext {
        Some(e) => Some(e.as_str()),
        None => None,
    };
    let stem_ref: Option<&str> = match &stem {
        Some(s) => Some(s.as_str()),
        None => None,
    };
    let r = shorten_download_file_name(target_dir, stem_ref, ext_ref);
    let ghost sv: Option<Seq<char>> = match stem {
        Some(s) => Some(s@),
        None => None,
    };
    let ghost ev: Option<Seq<char>> = match ext {
        Some(e) => Some(e@),
        None => None,
    };
    assert(sv == match stem_ref {
        Some(s) => Some(s@),
        None => None::<Seq<char>>,
    });
    assert(ev == match ext_ref {
        Some(e) => Some(e@),
        None => None::<Seq<char>>,
    });
    r
}

/// A character occurs in a text exactly when some position holds it.
proof fn lemma_char_in(s: Seq<char>, c: char)
    ensures
        contains(s, seq![c]) <==> exists|i: int| 0 <= i < s.len() && s[i] == c,
{
    if contains(s, seq![c]) {
        let i = choose|i: int| occurs_at(s, seq![c], i);
        assert(s.subrange(i, i + 1)[0] == s[i]);
    }
    if exists|i: int| 0 <= i < s.len() && s[i] == c {
        let i = choose|i: int| 0 <= i < s.len() && s[i] == c;
        assert(s.subrange(i, i + 1) =~= seq![c]);
        assert(occurs_at(s, seq![c], i));
    }
}

/// A text without `c` has no last `c`.
proof fn lemma_no_last_index(s: Seq<char>, c: char)
    requires
        !contains(s, seq![c]),
    ensures
        last_index_of(s, c) is None,
    decreases s.len(),
{
    lemma_char_in(s, c);
    if s.len() > 0 {
        assert(s.last() == s[s.len() - 1]);
        lemma_char_in(s.drop_last(), c);
        assert forall|i: int| 0 <= i < s.drop_last().len() implies s.drop_last()[i] != c by {
            assert(s.drop_last()[i] == s[i]);
        }
        lemma_no_last_index(s.drop_last(), c);
    }
}

/// Every platform reads an ordinary component as its own file name.
proof fn lemma_plain_is_portable(n: Seq<char>)
    requires
        plain_component(n),
    ensures
        portable_file_name(n) == Some(n),
{
    lemma_no_last_index(n, '/');
    assert(last_part(n) == n);
    assert(!starts_with(n, "//"@)) by {
        reveal_strlit("//");
        if starts_with(n, "//"@) {
            assert(n.take(2) == "//"@);
            assert(n[0] == n.take(2)[0]);
            lemma_char_in(n, '/');
        }
    }
}

/// An ordinary component with `.part` added is still one.
proof fn lemma_part_name_plain(name: Seq<char>)
    requires
        plain_component(name),
    ensures
        plain_component(name + ".part"@),
{
    reveal_strlit(".part");
    reveal_strlit(".");
    reveal_strlit("..");
    let t = name + ".part"@;
    lemma_char_in(name, '/');
    lemma_char_in(name, '\\');
    lemma_char_in(name, ':');
    lemma_char_in(t, '/');
    lemma_char_in(t, '\\');
    lemma_char_in(t, ':');
    assert forall|i: int| 0 <= i < t.len() implies t[i] != '/' && t[i] != '\\' && t[i] != ':' by {
        if i < name.len() {
            assert(t[i] == name[i]);
        } else {
            assert(t[i] == ".part"@[i - name.len()]);
        }
    }
    assert(t.len() > 2);
}

/// The path a download is written to until it completes: the target with
/// `.part` added to its file name. Where every platform reads the same
/// file name the path is usable; a target that is one ordinary file name
/// becomes that name with `.part`.
pub fn partial_download_path(target: &str) -> (r: Result<String, String>)
    ensures
        match r {
            Ok(p) => exists|name: Seq<char>|
                name.len() > 0 && contains(target@, name) && (plain_component(name + ".part"@) ==> ends_with(
                    p@,
                    name + ".part"@,
                )),
            Err(e) => e@ == "下载文件路径不合法"@,
        },
        portable_file_name(target@) is Some ==> r is Ok,
        plain_component(target@) ==> (r matches Ok(p) && p@ == target@ + ".part"@),
{
    proof {
        if plain_component(target@) {
            lemma_plain_is_portable(target@);
        }
    }
    let name = match path_file_name(target) {
        Some(n) => n,
        None => return Err("下载文件路径不合法".to_string()),
    };
    let mut partial = name.clone();
    push_str(&mut partial, ".part");
    assert(partial@ == name@ + ".part"@);
    proof {
        if plain_component(target@) {
            lemma_part_name_plain(target@);
        }
    }
    let p = path_with_file_name(target, partial.as_str());
    Ok(p)
}

/// Whether two paths name the same file: on Windows their texts compared
/// without ASCII case, elsewhere their components.
pub fn paths_equivalent(left: &str, right: &str, windows: bool) -> (r: bool)
    ensures
        windows ==> r == eq_ic(left@, right@),
        !windows && left@ == right@ ==> r,
        !windows && plain_component(left@) && plain_component(right@) ==> r == (left@ == right@),
{
    if windows {
        let l = lower_chars(&chars_of(left));
        let rr = lower_chars(&chars_of(right));
        crate::text::chars_eq(&l, &rr)
    } else {
        path_components_equal(left, right)
    }
}

/// A directory given in the settings must be absolute on this platform
/// (`Path::is_absolute`). A path that no platform reads as absolute is
/// refused; for the others the answer is the platform's, and only the
/// texts of the two outcomes are stated.
pub fn validate_custom_dir(value: &str, label: &str) -> (r: Result<String, String>)
    ensures
        match r {
            Ok(p) => p@ == value@ && value@.len() > 0,
            Err(e) => e@ == label@ + "必须是当前平台的绝对路径："@ + value@,
        },
        surely_relative(value@) ==> r is Err,
{
    if !path_is_absolute(value) {
        let mut m = label.to_string();
        push_str(&mut m, "必须是当前平台的绝对路径：");
        push_str(&mut m, value);
        return Err(m);
    }
    Ok(value.to_string())
}

/// A file name download operations may touch: an APK package, or its
/// partial file, without `..` and not reserved on Windows.
pub open spec fn operable_download_name(name: Seq<char>, windows: bool) -> bool {
    let lower = lower_seq(name);
    let base = if ends_with(lower, ".part"@) {
        lower.take(lower.len() - 5)
    } else {
        lower
    };
    name.len() > 0 && !contains(name, ".."@) && !reserved_on(base, windows) && (ends_with(
        base,
        ".apk"@,
    ) || ends_with(base, ".xapk"@) || ends_with(base, ".apks"@))
}

/// Whether download operations may touch a file of this name.
pub fn is_operable_download_name(name: &str, windows: bool) -> (r: bool)
    ensures
        r == operable_download_name(name@, windows),
{
    proof {
        reveal_strlit(".part");
    }
    let nc = chars_of(name);
    let lower = lower_chars(&nc);
    let n = lower.len();
    let is_partial = chars_end_with(&lower, ".part");
    let base_len: usize = if is_partial {
        n - 5
    } else {
        n
    };
    let mut base = String::new();
    push_range(&mut base, &lower, 0, base_len);
    assert(base@ =~= if crate::text::ends_with(lower@, ".part"@) {
        lower@.take(lower@.len() - 5)
    } else {
        lower@
    });
    let bc = chars_of(base.as_str());
    nc.len() > 0 && !crate::text::chars_contain(&nc, "..") && !is_windows_reserved_file_name(
        base.as_str(),
        windows,
    ) && (chars_end_with(&bc, ".apk") || chars_end_with(&bc, ".xapk") || chars_end_with(
        &bc,
        ".apks",
    ))
}

/// A path a download file operation may act on: absolute, naming an APK
/// package or its partial file.
pub fn validate_download_path_for_file_operation(raw_path: &str, windows: bool) -> (r: Result<
    String,
    String,
>)
    ensures
        match r {
            Ok(p) => p@ == trim(raw_path@) && (exists|name: Seq<char>|
                contains(p@, name) && operable_download_name(name, windows)) && (portable_file_name(p@) matches Some(
                n
            ) ==> operable_download_name(n, windows)),
            Err(e) => e@ == "下载文件路径"@ + "必须是当前平台的绝对路径："@ + trim(raw_path@) || e@
                == "下载文件路径不合法"@,
        },
        surely_relative(trim(raw_path@)) ==> (r matches Err(e) && e@ == "下载文件路径"@ + "必须是当前平台的绝对路径："@
            + trim(raw_path@)),
{
    let trimmed = crate::text::trimmed_str(raw_path);
    let mut t = String::new();
    push_range(&mut t, &trimmed, 0, trimmed.len());
    assert(t@ =~= trim(raw_path@));
    let path = validate_custom_dir(t.as_str(), "下载文件路径")?;
    let name = match path_file_name(path.as_str()) {
        Some(n) => n,
        None => String::new(),
    };
    if !is_operable_download_name(name.as_str(), windows) {
        return Err("下载文件路径不合法".to_string());
    }
    Ok(path)
}

/// Whether a file extension marks an update installer (`exe` or `msi`, in
/// any case).
pub open spec fn update_extension(ext: Option<Seq<char>>) -> bool {
    match ext {
        Some(e) => lower_seq(e) == "exe"@ || lower_seq(e) == "msi"@,
        None => false,
    }
}

/// The position of the last `c` in `s`.
pub open spec fn last_index_of(s: Seq<char>, c: char) -> Option<int>
    decreases s.len(),
{
    if s.len() == 0 {
        None
    } else if s.last() == c {
        Some(s.len() - 1)
    } else {
        last_index_of(s.drop_last(), c)
    }
}

/// A path that is one plain name: no separator of any platform and no
/// drive prefix.
pub open spec fn plain_file_name(path: Seq<char>) -> bool {
    !contains(path, seq!['/']) && !contains(path, seq!['\\']) && !contains(path, seq![':'])
}

/// The extension of a file name as std documents it: none for `..`, for a
/// name without `.`, or whose only `.` begins it; else the text after the
/// last `.`.
pub open spec fn name_extension(name: Seq<char>) -> Option<Seq<char>> {
    if name == ".."@ {
        None
    } else {
        match last_index_of(name, '.') {
            Some(i) => if i == 0 {
                None
            } else {
                Some(name.skip(i + 1))
            },
            None => None,
        }
    }
}

/// One ordinary path component on every platform: not empty, not `.` or
/// `..`, and without `/`, `\` or `:`.
pub open spec fn plain_component(n: Seq<char>) -> bool {
    n.len() > 0 && n != "."@ && n != ".."@ && plain_file_name(n)
}

/// A path that every platform splits the same way: no `\`, no `:` (so no
/// drive or device prefix) and no leading `//` (a network share on
/// Windows).
pub open spec fn portable_path(path: Seq<char>) -> bool {
    !contains(path, seq!['\\']) && !contains(path, seq![':']) && !starts_with(path, "//"@)
}

/// The text after the last `/`.
pub open spec fn last_part(path: Seq<char>) -> Seq<char> {
    match last_index_of(path, '/') {
        Some(i) => path.skip(i + 1),
        None => path,
    }
}

/// The file name every platform reads from a path: its last `/`-separated
/// part, for a portable path whose last part is an ordinary
/// component; `None` where the platforms may differ or there is none.
pub open spec fn portable_file_name(path: Seq<char>) -> Option<Seq<char>> {
    if portable_path(path) && plain_component(last_part(path)) {
        Some(last_part(path))
    } else {
        None
    }
}

/// The stem of a file name as std documents it: the whole name when it has
/// no `.` or its only `.` begins it, else the text before the last `.`.
pub open spec fn name_stem(name: Seq<char>) -> Seq<char> {
    match last_index_of(name, '.') {
        Some(i) => if i == 0 {
            name
        } else {
            name.take(i)
        },
        None => name,
    }
}

/// A path that no platform reads as absolute: it starts with no separator
/// and has no drive or device prefix.
pub open spec fn surely_relative(path: Seq<char>) -> bool {
    !starts_with(path, "/"@) && !starts_with(path, seq!['\\']) && !contains(path, seq![':'])
}

/// Whether a path's extension (as `Path::extension` reads it) marks an
/// update installer. How a path splits into components depends on the
/// platform; for a plain file name the answer is exact.
pub fn is_update_package_extension(path: &str) -> (r: bool)
    ensures
        r ==> exists|e: Seq<char>|
            contains(path@, seq!['.'] + e) && update_extension(Some(e)),
        plain_file_name(path@) ==> r == update_extension(name_extension(path@)),
{
    match path_extension(path) {
        Some(e) => {
            let l = lower_chars(&chars_of(e.as_str()));
            let r = crate::text::chars_eq_str(&l, "exe") || crate::text::chars_eq_str(&l, "msi");
            assert(r == update_extension(Some(e@)));
            r
        },
        None => false,
    }
}

// ---------------------------------------------------------------------------
// The official download request
// ---------------------------------------------------------------------------

/// A download detail value as text: a non-blank string (trimmed) or a
/// number as written.
pub open spec fn download_text(v: JsonV) -> Option<Seq<char>> {
    match v {
        JsonV::Str(s) => if trim(s).len() > 0 {
            Some(trim(s))
        } else {
            None
        },
        JsonV::Number(n) => Some(number_text(n)),
        _ => None,
    }
}

/// The first of `keys` whose field gives a text.
pub open spec fn download_field_text(v: Option<JsonV>, keys: Seq<Seq<char>>) -> Option<Seq<char>>
    decreases keys.len(),
{
    if keys.len() == 0 {
        None
    } else {
        match get_opt(v, keys[0]) {
            Some(x) if download_text(x) is Some => download_text(x),
            _ => download_field_text(v, keys.drop_first()),
        }
    }
}

/// `download_value_to_string` (see `download_text`).
pub fn download_value_to_string(v: &Json) -> (r: Option<String>)
    ensures
        match r {
            Some(t) => download_text(json_view(*v)) == Some(t@),
            None => download_text(json_view(*v)) is None,
        },
{
    match v {
        Json::Str(s) => {
            let t = crate::text::trimmed_str(s.as_str());
            if t.len() > 0 {
                Some(crate::text::string_of(&t))
            } else {
                None
            }
        },
        Json::Number(JsonNumber::PosInt(u)) => Some(crate::text::u64_to_string(*u)),
        Json::Number(JsonNumber::NegInt(i)) => Some(crate::text::i64_to_string(*i)),
        Json::Number(JsonNumber::Float(t)) => Some(t.clone()),
        _ => None,
    }
}

/// The first of `keys` whose field gives a text (see
/// `download_field_text`).
pub fn download_object_string(value: Option<&Json>, keys: &[&str]) -> (r: Option<String>)
    ensures
        match r {
            Some(t) => download_field_text(json_opt(value), str_views(keys@)) == Some(t@),
            None => download_field_text(json_opt(value), str_views(keys@)) is None,
        },
{
    let ghost ks = str_views(keys@);
    let mut i: usize = 0;
    assert(ks.skip(0) =~= ks);
    while i < keys.len()
        invariant
            i <= keys@.len(),
            ks == str_views(keys@),
            download_field_text(json_opt(value), ks) == download_field_text(json_opt(value), ks.skip(i as int)),
        decreases keys@.len() - i,
    {
        proof {
            assert(ks.skip(i as int)[0] == keys@[i as int]@);
            assert(ks.skip(i as int).drop_first() =~= ks.skip(i + 1));
        }
        let field = match value {
            Some(item) => item.get(keys[i]),
            None => None,
        };
        if let Some(x) = field {
            if let Some(t) = download_value_to_string(x) {
                return Some(t);
            }
        }
        i += 1;
    }
    assert(ks.skip(i as int) =~= Seq::<Seq<char>>::empty());
    None
}

/// A download verification that explicitly came back empty: no `data`,
/// `null`, or a blank string.
pub open spec fn empty_verification(v: JsonV) -> bool {
    match get(v, "data"@) {
        None => true,
        Some(JsonV::Null) => true,
        Some(JsonV::Str(s)) => trim(s).len() == 0,
        Some(_) => false,
    }
}

pub fn empty_download_verification(v: &Json) -> (r: bool)
    ensures
        r == empty_verification(json_view(*v)),
{
    let d = v.get("data");
    match d {
        None => true,
        Some(Json::Null) => true,
        Some(Json::Str(s)) => crate::text::trimmed_str(s.as_str()).len() == 0,
        Some(x) => {
            proof {
                lemma_views(*x);
            }
            false
        },
    }
}

/// Why the official download address could not be formed.
#[derive(Debug)]
pub enum DownloadUrlError {
    /// The package name, app id or version code is blank.
    Incomplete,
    /// The address could not be built.
    Build,
}

impl DownloadUrlError {
    /// The message shown for the error.
    pub fn message(&self) -> (r: String)
        ensures
            match self {
                DownloadUrlError::Incomplete => r@ == "应用下载参数不完整，缺少包名、应用 ID 或版本号"@,
                DownloadUrlError::Build => r@ == "构造酷安下载地址失败"@,
            },
    {
        match self {
            DownloadUrlError::Incomplete => "应用下载参数不完整，缺少包名、应用 ID 或版本号".to_string(),
            DownloadUrlError::Build => "构造酷安下载地址失败".to_string(),
        }
    }
}

/// `https://api.coolapk.com/v6/apk/download` with `pn`, `aid`, `vc`
/// (trimmed) and an empty `extra`, appended in that order.
pub open spec fn download_url_of(package: Seq<char>, apk_id: Seq<char>, version_code: Seq<char>) -> Result<Seq<char>, DownloadUrlError> {
    let p = trim(package);
    let a = trim(apk_id);
    let v = trim(version_code);
    if p.len() == 0 || a.len() == 0 || v.len() == 0 {
        Err(DownloadUrlError::Incomplete)
    } else {
        match url_append_pair_of("https://api.coolapk.com/v6/apk/download"@, "pn"@, p) {
            None => Err(DownloadUrlError::Build),
            Some(u1) => match url_append_pair_of(u1, "aid"@, a) {
                None => Err(DownloadUrlError::Build),
                Some(u2) => match url_append_pair_of(u2, "vc"@, v) {
                    None => Err(DownloadUrlError::Build),
                    Some(u3) => match url_append_pair_of(u3, "extra"@, Seq::empty()) {
                        None => Err(DownloadUrlError::Build),
                        Some(u4) => Ok(u4),
                    },
                },
            },
        }
    }
}

/// The official download address of an app version (see
/// `download_url_of`).
pub fn build_coolapk_download_url(package_name: &str, apk_id: &str, version_code: &str) -> (r: Result<String, DownloadUrlError>)
    ensures
        match download_url_of(package_name@, apk_id@, version_code@) {
            Ok(u) => r matches Ok(x) && x@ == u,
            Err(e) => r matches Err(x) && x == e,
        },
{
    let p = crate::text::string_of(&crate::text::trimmed_str(package_name));
    let a = crate::text::string_of(&crate::text::trimmed_str(apk_id));
    let v = crate::text::string_of(&crate::text::trimmed_str(version_code));
    if p.as_str().is_empty() || a.as_str().is_empty() || v.as_str().is_empty() {
        return Err(DownloadUrlError::Incomplete);
    }
    let u1 = match url_append_pair("https://api.coolapk.com/v6/apk/download", "pn", p.as_str()) {
        Some(u) => u,
        None => {
            return Err(DownloadUrlError::Build);
        },
    };
    let u2 = match url_append_pair(u1.as_str(), "aid", a.as_str()) {
        Some(u) => u,
        None => {
            return Err(DownloadUrlError::Build);
        },
    };
    let u3 = match url_append_pair(u2.as_str(), "vc", v.as_str()) {
        Some(u) => u,
        None => {
            return Err(DownloadUrlError::Build);
        },
    };
    proof {
        reveal_strlit("");
        assert(""@ =~= Seq::<char>::empty());
    }
    match url_append_pair(u3.as_str(), "extra", "") {
        Some(u) => Ok(u),
        None => Err(DownloadUrlError::Build),
    }
}

// ---------------------------------------------------------------------------
// The download response
// ---------------------------------------------------------------------------

/// The largest package a download accepts (8 GiB).
pub const APK_DOWNLOAD_MAX_BYTES: u64 = 8589934592u64;

/// Why a download response is not saved.
#[derive(Debug)]
pub enum DownloadResponseError {
    /// The server refused to resume a partial file (416).
    RangeRefused,
    /// Another status outside 200–299.
    Http(u16),
    /// The response is a web page, not a package.
    NotPackage,
    /// The package is larger than the limit.
    TooLarge,
    /// The body ended before the announced length.
    Interrupted { downloaded: u64, total: u64 },
}

impl DownloadResponseError {
    /// The message shown for the error; a status is shown with its reason
    /// (`HTTP 404 Not Found`).
    pub fn message(&self) -> (r: String)
        ensures
            match self {
                DownloadResponseError::RangeRefused => r@ == "服务器拒绝断点续传，已清理临时文件，请重试下载"@,
                DownloadResponseError::Http(c) => r@ == "下载失败：HTTP "@ + status_text_of(*c),
                DownloadResponseError::NotPackage => r@ == "下载响应是网页内容，不是应用安装包，已拒绝保存"@,
                DownloadResponseError::TooLarge => r@ == "安装包体积超过 8GB，已拒绝下载"@,
                DownloadResponseError::Interrupted { downloaded, total } => r@ == "下载中断：已下载 "@ + dec(
                    *downloaded as nat,
                ) + "/"@ + dec(*total as nat) + " 字节"@,
            },
    {
        match self {
            DownloadResponseError::RangeRefused => "服务器拒绝断点续传，已清理临时文件，请重试下载".to_string(),
            DownloadResponseError::Http(c) => {
                let mut m = "下载失败：HTTP ".to_string();
                let t = status_text(*c);
                push_str(&mut m, t.as_str());
                m
            },
            DownloadResponseError::NotPackage => "下载响应是网页内容，不是应用安装包，已拒绝保存".to_string(),
            DownloadResponseError::TooLarge => "安装包体积超过 8GB，已拒绝下载".to_string(),
            DownloadResponseError::Interrupted { downloaded, total } => {
                let mut m = "下载中断：已下载 ".to_string();
                crate::text::push_dec(&mut m, *downloaded);
                push_str(&mut m, "/");
                crate::text::push_dec(&mut m, *total);
                push_str(&mut m, " 字节");
                m
            },
        }
    }
}

/// Model of `DownloadResponseError`.
pub enum DownloadResponseErrorV {
    RangeRefused,
    Http(u16),
    NotPackage,
    TooLarge,
    Interrupted { downloaded: u64, total: u64 },
}

pub open spec fn response_error_view(e: DownloadResponseError) -> DownloadResponseErrorV {
    match e {
        DownloadResponseError::RangeRefused => DownloadResponseErrorV::RangeRefused,
        DownloadResponseError::Http(c) => DownloadResponseErrorV::Http(c),
        DownloadResponseError::NotPackage => DownloadResponseErrorV::NotPackage,
        DownloadResponseError::TooLarge => DownloadResponseErrorV::TooLarge,
        DownloadResponseError::Interrupted { downloaded, total } => DownloadResponseErrorV::Interrupted {
            downloaded,
            total,
        },
    }
}

/// Whether a download response can be saved, and whether it continues the
/// partial file (`existing` bytes long): a refused resume (416 with a
/// partial file), any other status outside 200–299, and a web page
/// (by its lowercased content type) are refused; the body is appended when
/// a partial file exists and the server answered 206.
pub open spec fn response_check(existing: u64, status: u16, content_type: Seq<char>) -> Result<bool, DownloadResponseErrorV> {
    if status == 416 && existing > 0 {
        Err(DownloadResponseErrorV::RangeRefused)
    } else if !(200 <= status && status < 300) {
        Err(DownloadResponseErrorV::Http(status))
    } else if starts_with(lower_seq(content_type), "text/html"@) || starts_with(
        lower_seq(content_type),
        "application/xhtml+xml"@,
    ) {
        Err(DownloadResponseErrorV::NotPackage)
    } else {
        Ok(existing > 0 && status == 206)
    }
}

/// Decides `response_check`.
pub fn download_response_check(existing: u64, status: u16, content_type: &str) -> (r: Result<bool, DownloadResponseError>)
    ensures
        match r {
            Ok(a) => response_check(existing, status, content_type@) == Ok::<bool, DownloadResponseErrorV>(a),
            Err(e) => response_check(existing, status, content_type@) == Err::<bool, DownloadResponseErrorV>(
                response_error_view(e),
            ),
        },
{
    if status == 416 && existing > 0 {
        return Err(DownloadResponseError::RangeRefused);
    }
    if !(200 <= status && status < 300) {
        return Err(DownloadResponseError::Http(status));
    }
    let ct = lower_chars(&chars_of(content_type));
    if crate::text::chars_start_with(&ct, "text/html") || crate::text::chars_start_with(&ct, "application/xhtml+xml") {
        return Err(DownloadResponseError::NotPackage);
    }
    Ok(existing > 0 && status == 206)
}

/// The size a download expects: for an appended body the announced length
/// plus the partial file (saturating), else the announced length; 0 when
/// none is announced. Refused beyond the limit.
pub open spec fn expected_total(append: bool, existing: u64, content_length: Option<u64>) -> Result<u64, DownloadResponseErrorV> {
    let total: int = match content_length {
        Some(l) => if append {
            if l + existing > u64::MAX {
                u64::MAX as int
            } else {
                l + existing
            }
        } else {
            l as int
        },
        None => 0,
    };
    if total > APK_DOWNLOAD_MAX_BYTES {
        Err(DownloadResponseErrorV::TooLarge)
    } else {
        Ok(total as u64)
    }
}

/// Decides `expected_total`.
pub fn download_expected_total(append: bool, existing: u64, content_length: Option<u64>) -> (r: Result<u64, DownloadResponseError>)
    ensures
        match r {
            Ok(t) => expected_total(append, existing, content_length) == Ok::<u64, DownloadResponseErrorV>(t),
            Err(e) => expected_total(append, existing, content_length) == Err::<u64, DownloadResponseErrorV>(
                response_error_view(e),
            ),
        },
{
    let total: u64 = match content_length {
        Some(l) => if append {
            l.saturating_add(existing)
        } else {
            l
        },
        None => 0,
    };
    if total > APK_DOWNLOAD_MAX_BYTES {
        Err(DownloadResponseError::TooLarge)
    } else {
        Ok(total)
    }
}

/// The bytes written after a chunk (saturating), refused beyond the limit.
pub open spec fn after_chunk(downloaded: u64, chunk_len: u64) -> Option<u64> {
    let d: int = if downloaded + chunk_len > u64::MAX {
        u64::MAX as int
    } else {
        downloaded + chunk_len
    };
    if d > APK_DOWNLOAD_MAX_BYTES {
        None
    } else {
        Some(d as u64)
    }
}

/// Decides `after_chunk`; `None` means the download stops as too large.
pub fn download_after_chunk(downloaded: u64, chunk_len: u64) -> (r: Option<u64>)
    ensures
        r == after_chunk(downloaded, chunk_len),
{
    let d = downloaded.saturating_add(chunk_len);
    if d > APK_DOWNLOAD_MAX_BYTES {
        None
    } else {
        Some(d)
    }
}

/// A finished body is complete unless a length was announced and not met.
pub fn download_completed(downloaded: u64, total: u64) -> (r: Result<(), DownloadResponseError>)
    ensures
        (total > 0 && downloaded != total) ==> (r matches Err(
            DownloadResponseError::Interrupted { downloaded: d, total: t },
        ) && d == downloaded && t == total),
        !(total > 0 && downloaded != total) ==> r is Ok,
{
    if total > 0 && downloaded != total {
        Err(DownloadResponseError::Interrupted { downloaded, total })
    } else {
        Ok(())
    }
}

// ---------------------------------------------------------------------------
// The app ID and version a download asks for
// ---------------------------------------------------------------------------

/// The text before the first `~` (all of a text without one).
pub open spec fn before_tilde(s: Seq<char>) -> Seq<char> {
    match crate::text::find_char(s, '~') {
        Some(i) => s.take(i),
        None => s,
    }
}

/// The bytes of a base64 text: read as padded standard base64, else as
/// unpadded.
pub open spec fn either_b64(text: Seq<u8>) -> Option<Seq<u8>> {
    match crate::outside::b64_decoding(text) {
        Some(b) => Some(b),
        None => crate::outside::b64_nopad_decoding(text),
    }
}

/// The JSON an APK's `extraAnalysisData` carries: the trimmed text before
/// its first `~`, decoded as base64 (padded, else unpadded), read as UTF-8
/// JSON; `None` when it is blank or any step fails.
pub open spec fn extra_analysis_json(value: Seq<char>) -> Option<JsonV> {
    let e = trim(before_tilde(value));
    if e.len() == 0 {
        None
    } else {
        match either_b64(vstd::utf8::encode_utf8(e)) {
            Some(b) => if vstd::utf8::valid_utf8(b) {
                crate::outside::json_text_value(vstd::utf8::decode_utf8(b))
            } else {
                None
            },
            None => None,
        }
    }
}

/// `decode_extra_analysis_data` (see `extra_analysis_json`).
pub fn decode_extra_analysis_data(value: &str) -> (r: Option<Json>)
    ensures
        match extra_analysis_json(value@) {
            Some(v) => r matches Some(j) && json_view(j) == v,
            None => r is None,
        },
{
    let cs = chars_of(value);
    let end = match crate::text::find_char_from(&cs, '~', 0, cs.len()) {
        Some(i) => {
            proof {
                crate::text::lemma_find_char_at(cs@, '~', i as int);
            }
            i
        },
        None => {
            proof {
                crate::text::lemma_find_char_none(cs@, '~');
            }
            cs.len()
        },
    };
    assert(cs@.subrange(0, end as int) =~= before_tilde(value@));
    let e = crate::text::trimmed(&cs, 0, end);
    if e.len() == 0 {
        return None;
    }
    let es = crate::text::string_of(&e);
    let bytes = es.as_str().as_bytes();
    let decoded = match crate::outside::b64_decode(bytes) {
        Ok(b) => b,
        Err(_) => match crate::outside::b64_decode_no_pad(bytes) {
            Ok(b) => b,
            Err(_) => {
                return None;
            },
        },
    };
    match crate::outside::utf8_text(decoded.as_slice()) {
        Some(text) => crate::outside::parse_json_text(text.as_str()),
        None => None,
    }
}

/// The extra data a download uses: that given with the request, else that
/// of the app's details (its `extraAnalysisData` text).
pub open spec fn download_extra(given: Option<Seq<char>>, detail_data: Option<JsonV>) -> Option<JsonV> {
    match given {
        Some(g) if extra_analysis_json(g) is Some => extra_analysis_json(g),
        _ => match crate::json::as_str_opt(get_opt(detail_data, "extraAnalysisData"@)) {
            Some(t) => extra_analysis_json(t),
            None => None,
        },
    }
}

/// Builds `download_extra`.
pub fn download_extra_data(given: Option<&str>, detail_data: Option<&Json>) -> (r: Option<Json>)
    ensures
        match download_extra(
            match given {
                Some(g) => Some(g@),
                None => None,
            },
            json_opt(detail_data),
        ) {
            Some(v) => r matches Some(j) && json_view(j) == v,
            None => r is None,
        },
{
    if let Some(g) = given {
        if let Some(j) = decode_extra_analysis_data(g) {
            return Some(j);
        }
    }
    let t = match detail_data {
        Some(d) => match d.get("extraAnalysisData") {
            Some(v) => v.as_str(),
            None => None,
        },
        None => None,
    };
    match t {
        Some(text) => decode_extra_analysis_data(text),
        None => None,
    }
}

/// A requested value, trimmed, when it is not blank.
pub open spec fn requested(o: Option<Seq<char>>) -> Option<Seq<char>> {
    match o {
        Some(s) => if trim(s).len() > 0 {
            Some(trim(s))
        } else {
            None
        },
        None => None,
    }
}

pub open spec fn app_id_keys() -> Seq<Seq<char>> {
    seq!["aid"@, "id"@, "entityId"@]
}

pub open spec fn version_keys() -> Seq<Seq<char>> {
    seq!["versionCode"@, "versioncode"@, "version_code"@, "apkversioncode"@, "apkVersionCode"@, "apk_version_code"@]
}

pub open spec fn extra_version_keys() -> Seq<Seq<char>> {
    seq!["versionCode"@, "versioncode"@, "version_code"@]
}

/// The numeric app ID and version code a download asks for, as the
/// official client takes them: the requested values when not blank, else
/// the app details' ID and version fields, the version also from the extra
/// data; refused, ID first, when either is missing.
pub open spec fn download_ids(
    apk_id: Option<Seq<char>>,
    version_code: Option<Seq<char>>,
    detail_data: Option<JsonV>,
    extra: Option<JsonV>,
) -> Result<(Seq<char>, Seq<char>), Seq<char>> {
    let aid = match requested(apk_id) {
        Some(a) => Some(a),
        None => download_field_text(detail_data, app_id_keys()),
    };
    match aid {
        None => Err("应用详情未返回数字应用 ID"@),
        Some(a) => {
            let vc = match requested(version_code) {
                Some(v) => Some(v),
                None => match download_field_text(detail_data, version_keys()) {
                    Some(v) => Some(v),
                    None => download_field_text(extra, extra_version_keys()),
                },
            };
            match vc {
                None => Err("应用详情未返回应用版本号"@),
                Some(v) => Ok((a, v)),
            }
        },
    }
}

fn requested_of(o: Option<&str>) -> (r: Option<String>)
    ensures
        match r {
            Some(s) => requested(
                match o {
                    Some(x) => Some(x@),
                    None => None,
                },
            ) == Some(s@),
            None => requested(
                match o {
                    Some(x) => Some(x@),
                    None => None,
                },
            ) is None,
        },
{
    match o {
        Some(s) => {
            let t = crate::text::trimmed_str(s);
            if t.len() > 0 {
                Some(crate::text::string_of(&t))
            } else {
                None
            }
        },
        None => None,
    }
}

/// `run_apk_download`'s choice of the app ID and version code (see
/// `download_ids`).
pub fn resolve_download_ids(
    apk_id: Option<&str>,
    version_code: Option<&str>,
    detail_data: Option<&Json>,
    extra: Option<&Json>,
) -> (r: Result<(String, String), String>)
    ensures
        match download_ids(
            match apk_id {
                Some(x) => Some(x@),
                None => None,
            },
            match version_code {
                Some(x) => Some(x@),
                None => None,
            },
            json_opt(detail_data),
            json_opt(extra),
        ) {
            Ok((a, v)) => r matches Ok((x, y)) && x@ == a && y@ == v,
            Err(m) => r matches Err(e) && e@ == m,
        },
{
    let ak = ["aid", "id", "entityId"];
    let vk = ["versionCode", "versioncode", "version_code", "apkversioncode", "apkVersionCode", "apk_version_code"];
    let ek = ["versionCode", "versioncode", "version_code"];
    assert(str_views(ak@) =~= app_id_keys());
    assert(str_views(vk@) =~= version_keys());
    assert(str_views(ek@) =~= extra_version_keys());
    let aid = match requested_of(apk_id) {
        Some(a) => a,
        None => match download_object_string(detail_data, &ak) {
            Some(a) => a,
            None => {
                return Err("应用详情未返回数字应用 ID".to_string());
            },
        },
    };
    let vc = match requested_of(version_code) {
        Some(v) => v,
        None => match download_object_string(detail_data, &vk) {
            Some(v) => v,
            None => match download_object_string(extra, &ek) {
                Some(v) => v,
                None => {
                    return Err("应用详情未返回应用版本号".to_string());
                },
            },
        },
    };
    Ok((aid, vc))
}

} // verus!
