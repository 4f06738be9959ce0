//! Checking an update download link before anything is fetched: only
//! HTTPS links to the release hosts are followed, and the installer's name
//! is reduced to safe characters and must name an `.exe` or `.msi`.

use vstd::prelude::*;
use crate::downloads::{last_index_of, last_part};
use crate::outside::{url_scheme_host, url_scheme_host_of};
use crate::text::{chars_end_with, chars_eq_str, chars_of, ends_with, is_ascii_alnum, lower_chars, lower_seq, push_str, str_views, trim, trim_range};

verus! {

/// The hosts update packages may be downloaded from.
pub open spec fn update_hosts() -> Seq<Seq<char>> {
    seq![
        "github.com"@,
        "www.github.com"@,
        "objects.githubusercontent.com"@,
        "release-assets.githubusercontent.com"@,
    ]
}

/// Why an update link is refused.
#[derive(Debug)]
pub enum UpdateUrlError {
    /// The link does not parse; the parser's text.
    Invalid(String),
    /// The link is not HTTPS.
    NotHttps,
    /// The link's host (lowercased) is not a release host.
    HostNotAllowed(String),
    /// The link names no safe `.exe` or `.msi` file.
    BadFileName,
}

impl UpdateUrlError {
    /// The message shown for the error.
    pub fn message(&self) -> (r: String)
        ensures
            match self {
                UpdateUrlError::Invalid(e) => r@ == "更新链接无效: "@ + e@,
                UpdateUrlError::NotHttps => r@ == "更新链接必须为 HTTPS"@,
                UpdateUrlError::HostNotAllowed(h) => r@ == "更新链接域名不在允许列表内: "@ + h@,
                UpdateUrlError::BadFileName => r@ == "更新包文件名不合法"@,
            },
    {
        match self {
            UpdateUrlError::Invalid(e) => {
                let mut m = "更新链接无效: ".to_string();
                push_str(&mut m, e.as_str());
                m
            },
            UpdateUrlError::NotHttps => "更新链接必须为 HTTPS".to_string(),
            UpdateUrlError::HostNotAllowed(h) => {
                let mut m = "更新链接域名不在允许列表内: ".to_string();
                push_str(&mut m, h.as_str());
                m
            },
            UpdateUrlError::BadFileName => "更新包文件名不合法".to_string(),
        }
    }
}

/// Model of `UpdateUrlError`.
pub enum UpdateUrlErrorV {
    Invalid(Seq<char>),
    NotHttps,
    HostNotAllowed(Seq<char>),
    BadFileName,
}

pub open spec fn update_error_view(e: UpdateUrlError) -> UpdateUrlErrorV {
    match e {
        UpdateUrlError::Invalid(e) => UpdateUrlErrorV::Invalid(e@),
        UpdateUrlError::NotHttps => UpdateUrlErrorV::NotHttps,
        UpdateUrlError::HostNotAllowed(h) => UpdateUrlErrorV::HostNotAllowed(h@),
        UpdateUrlError::BadFileName => UpdateUrlErrorV::BadFileName,
    }
}

/// A character an update file name keeps.
pub open spec fn update_name_char(c: char) -> bool {
    is_ascii_alnum(c) || c == '.' || c == '_' || c == '-'
}

/// The characters of `s` that an update file name keeps, in order.
pub open spec fn kept_name_chars(s: Seq<char>) -> Seq<char>
    decreases s.len(),
{
    if s.len() == 0 {
        Seq::empty()
    } else {
        kept_name_chars(s.drop_last()) + if update_name_char(s.last()) {
            seq![s.last()]
        } else {
            Seq::empty()
        }
    }
}

/// The first 128 characters of a text (all of a shorter one).
pub open spec fn first_128(s: Seq<char>) -> Seq<char> {
    if s.len() <= 128 {
        s
    } else {
        s.take(128)
    }
}

/// The safe file name of an update link: the trimmed text after its last
/// `/`, cut to 128 characters, keeping ASCII letters and digits, `.`, `_`
/// and `-`.
pub open spec fn safe_update_name(url: Seq<char>) -> Seq<char> {
    kept_name_chars(first_128(trim(last_part(url))))
}

/// The stem and extension an update package is saved under, or why the
/// link is refused: a link that does not parse, one that is not HTTPS, one
/// whose lowercased host is not a release host, or one whose safe file
/// name is empty or does not end in `.exe` or `.msi`. The stem is the safe
/// name without its extension, or `coolapk-desktop-update` when nothing is
/// left.
pub open spec fn update_package(url: Seq<char>) -> Result<(Seq<char>, Seq<char>), UpdateUrlErrorV> {
    match url_scheme_host_of(url) {
        Err(e) => Err(UpdateUrlErrorV::Invalid(e)),
        Ok((scheme, host)) => if scheme != "https"@ {
            Err(UpdateUrlErrorV::NotHttps)
        } else if !update_hosts().contains(lower_seq(host)) {
            Err(UpdateUrlErrorV::HostNotAllowed(lower_seq(host)))
        } else {
            let n = safe_update_name(url);
            if n.len() == 0 || !(ends_with(n, ".exe"@) || ends_with(n, ".msi"@)) {
                Err(UpdateUrlErrorV::BadFileName)
            } else {
                let ext = if ends_with(n, ".msi"@) {
                    "msi"@
                } else {
                    "exe"@
                };
                let stem = n.take(n.len() - 4);
                Ok((
                    if stem.len() == 0 {
                        "coolapk-desktop-update"@
                    } else {
                        stem
                    },
                    ext,
                ))
            }
        },
    }
}

/// The start of the text after the last `/` of `cs` (0 when there is none).
fn after_last_slash(cs: &Vec<char>) -> (r: usize)
    ensures
        r <= cs@.len(),
        cs@.skip(r as int) == last_part(cs@),
{
    let mut i: usize = cs.len();
    assert(cs@.take(cs@.len() as int) =~= cs@);
    while i > 0
        invariant
            i <= cs@.len(),
            last_index_of(cs@, '/') == last_index_of(cs@.take(i as int), '/'),
        decreases i,
    {
        proof {
            assert(cs@.take(i as int).drop_last() =~= cs@.take(i - 1));
            assert(cs@.take(i as int).last() == cs@[i - 1]);
        }
        if cs[i - 1] == '/' {
            assert(last_index_of(cs@, '/') == Some(i - 1));
            return i;
        }
        i -= 1;
    }
    assert(cs@.take(0) =~= Seq::<char>::empty());
    assert(cs@.skip(0) =~= cs@);
    0
}

/// The safe file name of an update link (see `safe_update_name`).
fn safe_update_name_of(url: &str) -> (r: Vec<char>)
    ensures
        r@ == safe_update_name(url@),
{
    let cs = chars_of(url);
    let start = after_last_slash(&cs);
    assert(cs@.subrange(start as int, cs@.len() as int) =~= cs@.skip(start as int));
    let (a, b) = trim_range(&cs, start, cs.len());
    let ghost t = cs@.subrange(a as int, b as int);
    let end: usize = if b - a <= 128 {
        b
    } else {
        a + 128
    };
    let ghost f = cs@.subrange(a as int, end as int);
    assert(f =~= first_128(t));
    let mut out: Vec<char> = Vec::new();
    let mut i: usize = a;
    assert(f.take(0) =~= Seq::<char>::empty());
    while i < end
        invariant
            a <= i <= end <= cs@.len(),
            f == cs@.subrange(a as int, end as int),
            out@ == kept_name_chars(f.take(i - a)),
        decreases end - i,
    {
        proof {
            assert(f.take(i - a + 1).drop_last() =~= f.take(i - a));
            assert(f.take(i - a + 1).last() == cs@[i as int]);
        }
        let c = cs[i];
        if ('0' <= c && c <= '9') || ('a' <= c && c <= 'z') || ('A' <= c && c <= 'Z') || c == '.' || c == '_' || c
            == '-' {
            out.push(c);
        }
        proof {
            assert(out@ =~= kept_name_chars(f.take(i - a + 1)));
        }
        i += 1;
    }
    assert(f.take(end - a) =~= f);
    out
}

/// `download_update`'s check of the link: the stem and extension the
/// package is saved under (see `update_package`).
pub fn update_package_name(url: &str) -> (r: Result<(String, String), UpdateUrlError>)
    ensures
        match r {
            Ok((stem, ext)) => update_package(url@) == Ok::<(Seq<char>, Seq<char>), UpdateUrlErrorV>((stem@, ext@)),
            Err(e) => update_package(url@) == Err::<(Seq<char>, Seq<char>), UpdateUrlErrorV>(update_error_view(e)),
        },
{
    let (scheme, host) = match url_scheme_host(url) {
        Ok(p) => p,
        Err(e) => {
            return Err(UpdateUrlError::Invalid(e));
        },
    };
    proof {
        reveal_strlit("https");
    }
    if !chars_eq_str(&chars_of(scheme.as_str()), "https") {
        return Err(UpdateUrlError::NotHttps);
    }
    let lowered = lower_chars(&chars_of(host.as_str()));
    let hosts = ["github.com", "www.github.com", "objects.githubusercontent.com", "release-assets.githubusercontent.com"];
    assert(str_views(hosts@) =~= update_hosts());
    let mut allowed = false;
    let mut k: usize = 0;
    while k < 4
        invariant
            k <= 4,
            hosts@.len() == 4,
            str_views(hosts@) == update_hosts(),
            allowed <==> exists|j: int| 0 <= j < k && update_hosts()[j] == lowered@,
        decreases 4 - k,
    {
        assert(update_hosts()[k as int] == hosts@[k as int]@);
        if chars_eq_str(&lowered, hosts[k]) {
            allowed = true;
        }
        k += 1;
    }
    if !allowed {
        assert(!update_hosts().contains(lowered@));
        let mut h = String::new();
        let mut j: usize = 0;
        while j < lowered.len()
            invariant
                j <= lowered@.len(),
                h@ == lowered@.take(j as int),
            decreases lowered@.len() - j,
        {
            crate::text::push_char(&mut h, lowered[j]);
            assert(lowered@.take(j + 1) =~= lowered@.take(j as int).push(lowered@[j as int]));
            j += 1;
        }
        assert(lowered@.take(lowered@.len() as int) =~= lowered@);
        return Err(UpdateUrlError::HostNotAllowed(h));
    }
    let ghost j = choose|j: int| 0 <= j < 4 && update_hosts()[j] == lowered@;
    assert(update_hosts()[j] == lowered@);
    assert(update_hosts().contains(lowered@));
    let n = safe_update_name_of(url);
    proof {
        reveal_strlit(".exe");
        reveal_strlit(".msi");
    }
    let is_exe = chars_end_with(&n, ".exe");
    let is_msi = chars_end_with(&n, ".msi");
    if n.len() == 0 || !(is_exe || is_msi) {
        return Err(UpdateUrlError::BadFileName);
    }
    let ext = if is_msi {
        "msi".to_string()
    } else {
        "exe".to_string()
    };
    let stem_len = n.len() - 4;
    let stem = if stem_len == 0 {
        "coolapk-desktop-update".to_string()
    } else {
        let s = crate::text::string_of_range(&n, 0, stem_len);
        assert(s@ == n@.take(stem_len as int));
        s
    };
    Ok((stem, ext))
}

/// The largest update package a download accepts (500 MiB).
pub const UPDATE_MAX_BYTES: u64 = 524288000u64;

/// An update whose announced length is over the limit is refused before
/// anything is written.
pub fn update_announced_size(total: u64) -> (r: Result<(), String>)
    ensures
        total > UPDATE_MAX_BYTES ==> (r matches Err(m) && m@ == "更新包体积异常（超过 500MB），已拒绝下载"@),
        total <= UPDATE_MAX_BYTES ==> r is Ok,
{
    if total > UPDATE_MAX_BYTES {
        Err("更新包体积异常（超过 500MB），已拒绝下载".to_string())
    } else {
        Ok(())
    }
}

/// The bytes of an update written after a chunk; the download stops once
/// they pass the limit.
pub fn update_after_chunk(downloaded: u64, chunk_len: u64) -> (r: Result<u64, String>)
    ensures
        downloaded + chunk_len > UPDATE_MAX_BYTES ==> (r matches Err(m) && m@ == "更新包体积异常（超过 500MB），已中止下载"@),
        downloaded + chunk_len <= UPDATE_MAX_BYTES ==> r == Ok::<u64, String>((downloaded + chunk_len) as u64),
{
    let d = downloaded.saturating_add(chunk_len);
    if d > UPDATE_MAX_BYTES {
        Err("更新包体积异常（超过 500MB），已中止下载".to_string())
    } else {
        Ok(d)
    }
}

} // verus!
