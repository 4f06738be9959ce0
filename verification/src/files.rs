//! Names and contents of the files the client writes: saved images, the
//! image cache, and the helpers that check download paths.

use vstd::prelude::*;
use crate::outside::{
    b64_decode, b64_decoding, b64_encode, b64_encoding, decode_error_text, hex_encode,
    hex_lower_text, md5_digest, md5_of, path_file_stem, url_last_segment, url_last_segment_of,
    utf8_text,
};
use crate::text::{
    chars_eq_str, chars_of, dec, ends_with, eq_ic, find_char, is_ascii_alnum, lower_chars,
    lower_seq, push_char, push_range, push_str, starts_with,
};
use crate::url::before_char;
use vstd::string::StringSliceAdditionalSpecFns;

verus! {

// ---------------------------------------------------------------------------
// Image types and data URLs
// ---------------------------------------------------------------------------

/// The file extension for an image MIME type (`jpg` for unknown types).
pub open spec fn extension_for(mime: Seq<char>) -> Seq<char> {
    let m = lower_seq(mime);
    if m == "image/png"@ {
        "png"@
    } else if m == "image/gif"@ {
        "gif"@
    } else if m == "image/webp"@ {
        "webp"@
    } else if m == "image/avif"@ {
        "avif"@
    } else if m == "image/bmp"@ {
        "bmp"@
    } else if m == "image/svg+xml"@ {
        "svg"@
    } else {
        "jpg"@
    }
}

/// The file extension for an image MIME type, compared without case.
pub fn image_extension(mime_type: &str) -> (r: &'static str)
    ensures
        r@ == extension_for(mime_type@),
{
    let m = lower_chars(&chars_of(mime_type));
    if chars_eq_str(&m, "image/png") {
        "png"
    } else if chars_eq_str(&m, "image/gif") {
        "gif"
    } else if chars_eq_str(&m, "image/webp") {
        "webp"
    } else if chars_eq_str(&m, "image/avif") {
        "avif"
    } else if chars_eq_str(&m, "image/bmp") {
        "bmp"
    } else if chars_eq_str(&m, "image/svg+xml") {
        "svg"
    } else {
        "jpg"
    }
}

/// The extension a saved image gets follows its MIME type, in any case:
/// PNG, GIF, WebP, AVIF, BMP and SVG images keep their own extension, and
/// only other types are saved as `jpg`; a downloaded image's name ends in
/// that extension.
pub proof fn law_image_extension_follows_mime(mime: Seq<char>, stem: Option<Seq<char>>, now_secs: u64)
    ensures
        lower_seq(mime) == "image/png"@ ==> extension_for(mime) == "png"@,
        lower_seq(mime) == "image/gif"@ ==> extension_for(mime) == "gif"@,
        lower_seq(mime) == "image/webp"@ ==> extension_for(mime) == "webp"@,
        lower_seq(mime) == "image/avif"@ ==> extension_for(mime) == "avif"@,
        lower_seq(mime) == "image/bmp"@ ==> extension_for(mime) == "bmp"@,
        lower_seq(mime) == "image/svg+xml"@ ==> extension_for(mime) == "svg"@,
        lower_seq(mime) != "image/png"@ && lower_seq(mime) != "image/gif"@ && lower_seq(mime) != "image/webp"@
            && lower_seq(mime) != "image/avif"@ && lower_seq(mime) != "image/bmp"@ && lower_seq(mime)
            != "image/svg+xml"@ ==> extension_for(mime) == "jpg"@,
        crate::text::ends_with(downloaded_image_name(stem, mime, now_secs), seq!['.'] + extension_for(mime)),
{
    reveal_strlit("image/png");
    reveal_strlit("image/gif");
    reveal_strlit("image/webp");
    reveal_strlit("image/avif");
    reveal_strlit("image/bmp");
    reveal_strlit("image/svg+xml");
    assert("image/png"@ != "image/gif"@) by {
        assert("image/png"@[6] != "image/gif"@[6]);
    }
    assert("image/png"@ != "image/webp"@) by {
        assert("image/png"@[6] != "image/webp"@[6]);
    }
    assert("image/png"@ != "image/avif"@) by {
        assert("image/png"@[6] != "image/avif"@[6]);
    }
    assert("image/png"@ != "image/bmp"@) by {
        assert("image/png"@[6] != "image/bmp"@[6]);
    }
    assert("image/png"@ != "image/svg+xml"@) by {
        assert("image/png"@[6] != "image/svg+xml"@[6]);
    }
    assert("image/gif"@ != "image/webp"@) by {
        assert("image/gif"@[6] != "image/webp"@[6]);
    }
    assert("image/gif"@ != "image/avif"@) by {
        assert("image/gif"@[6] != "image/avif"@[6]);
    }
    assert("image/gif"@ != "image/bmp"@) by {
        assert("image/gif"@[6] != "image/bmp"@[6]);
    }
    assert("image/gif"@ != "image/svg+xml"@) by {
        assert("image/gif"@[6] != "image/svg+xml"@[6]);
    }
    assert("image/webp"@ != "image/avif"@) by {
        assert("image/webp"@[6] != "image/avif"@[6]);
    }
    assert("image/webp"@ != "image/bmp"@) by {
        assert("image/webp"@[6] != "image/bmp"@[6]);
    }
    assert("image/webp"@ != "image/svg+xml"@) by {
        assert("image/webp"@[6] != "image/svg+xml"@[6]);
    }
    assert("image/avif"@ != "image/bmp"@) by {
        assert("image/avif"@[6] != "image/bmp"@[6]);
    }
    assert("image/avif"@ != "image/svg+xml"@) by {
        assert("image/avif"@[6] != "image/svg+xml"@[6]);
    }
    assert("image/bmp"@ != "image/svg+xml"@) by {
        assert("image/bmp"@[6] != "image/svg+xml"@[6]);
    }
    let n = downloaded_image_name(stem, mime, now_secs);
    let tail = seq!['.'] + extension_for(mime);
    assert(n.subrange(n.len() - tail.len(), n.len() as int) =~= tail);
}

/// Header and payload of a data URL: the text around its first comma.
pub open spec fn data_url_split(u: Seq<char>) -> Option<(Seq<char>, Seq<char>)> {
    match find_char(u, ',') {
        Some(i) => Some((u.take(i), u.skip(i + 1))),
        None => None,
    }
}

/// The image MIME type a data URL header names (`data:<mime>;...`).
pub open spec fn header_mime(header: Seq<char>) -> Option<Seq<char>> {
    if starts_with(header, "data:"@) {
        let m = before_char(header.skip(5), ';');
        if starts_with(m, "image/"@) {
            Some(m)
        } else {
            None
        }
    } else {
        None
    }
}

/// What decoding an image data URL gives: its MIME type and bytes, or
/// which check failed.
pub enum DataUrlError {
    /// There is no comma between header and payload.
    Malformed,
    /// The header does not name an image type.
    NotImage,
    /// The payload is not marked as base64.
    NotBase64,
    /// The payload is not valid base64; the text describes why.
    Undecodable(String),
}

impl DataUrlError {
    /// The message shown to the user.
    pub fn message(&self) -> (r: String)
        ensures
            match *self {
                DataUrlError::Malformed => r@ == "图片数据格式无效"@,
                DataUrlError::NotImage => r@ == "下载内容不是图片"@,
                DataUrlError::NotBase64 => r@ == "图片数据不是 Base64 格式"@,
                DataUrlError::Undecodable(e) => r@ == "图片数据解码失败："@ + e@,
            },
    {
        match self {
            DataUrlError::Malformed => "图片数据格式无效".to_string(),
            DataUrlError::NotImage => "下载内容不是图片".to_string(),
            DataUrlError::NotBase64 => "图片数据不是 Base64 格式".to_string(),
            DataUrlError::Undecodable(e) => {
                let mut m = "图片数据解码失败：".to_string();
                push_str(&mut m, e.as_str());
                m
            },
        }
    }
}

/// Position of the first `c` in `cs`, with its meaning for `find_char`.
fn first_index(cs: &Vec<char>, c: char) -> (r: Option<usize>)
    ensures
        match r {
            Some(i) => i < cs@.len() && find_char(cs@, c) == Some(i as int),
            None => find_char(cs@, c) is None,
        },
{
    match crate::text::find_char_from(cs, c, 0, cs.len()) {
        Some(i) => {
            proof {
                crate::text::lemma_find_char_at(cs@, c, i as int);
            }
            Some(i)
        },
        None => {
            proof {
                crate::text::lemma_find_char_none(cs@, c);
            }
            None
        },
    }
}

/// The MIME type and bytes of a base64 image data URL.
pub fn decode_image_data_url(data_url: &str) -> (r: Result<(String, Vec<u8>), DataUrlError>)
    ensures
        match data_url_split(data_url@) {
            None => r matches Err(DataUrlError::Malformed),
            Some((header, payload)) => match header_mime(header) {
                None => r matches Err(DataUrlError::NotImage),
                Some(mime) => if !ends_with(header, ";base64"@) {
                    r matches Err(DataUrlError::NotBase64)
                } else {
                    match b64_decoding(vstd::utf8::encode_utf8(payload)) {
                        Some(bytes) => r matches Ok((m, b)) && m@ == mime && b@ == bytes,
                        None => r matches Err(DataUrlError::Undecodable(_)),
                    }
                },
            },
        },
{
    proof {
        reveal_strlit("data:");
        reveal_strlit("image/");
    }
    let cs = chars_of(data_url);
    let n = cs.len();
    let comma = match first_index(&cs, ',') {
        Some(i) => i,
        None => return Err(DataUrlError::Malformed),
    };
    let header = crate::text::string_of_range(&cs, 0, comma);
    let payload = crate::text::string_of_range(&cs, comma + 1, n);
    assert(header@ =~= cs@.take(comma as int));
    assert(payload@ =~= cs@.skip(comma + 1));
    let hc = chars_of(header.as_str());
    if !crate::text::chars_start_with(&hc, "data:") {
        return Err(DataUrlError::NotImage);
    }
    let rest = crate::text::string_of_range(&hc, 5, hc.len());
    assert(rest@ =~= hc@.skip(5));
    let rc = chars_of(rest.as_str());
    let mime_end = match first_index(&rc, ';') {
        Some(i) => i,
        None => rc.len(),
    };
    let mime = crate::text::string_of_range(&rc, 0, mime_end);
    assert(mime@ =~= before_char(rc@, ';'));
    if !crate::text::chars_start_with(&chars_of(mime.as_str()), "image/") {
        return Err(DataUrlError::NotImage);
    }
    if !crate::text::chars_end_with(&hc, ";base64") {
        return Err(DataUrlError::NotBase64);
    }
    match b64_decode(payload.as_str().as_bytes()) {
        Ok(bytes) => Ok((mime, bytes)),
        Err(e) => Err(DataUrlError::Undecodable(decode_error_text(&e))),
    }
}

// ---------------------------------------------------------------------------
// Saved image names
// ---------------------------------------------------------------------------

/// Characters a saved file's stem keeps.
pub open spec fn stem_keeps(c: char) -> bool {
    is_ascii_alnum(c) || c == '_' || c == '-'
}

/// The kept characters of `s`, in order.
pub open spec fn kept_stem_chars(s: Seq<char>) -> Seq<char>
    decreases s.len(),
{
    if s.len() == 0 {
        Seq::empty()
    } else if stem_keeps(s[0]) {
        seq![s[0]] + kept_stem_chars(s.drop_first())
    } else {
        kept_stem_chars(s.drop_first())
    }
}

/// The first 100 characters of a stem, keeping only letters, digits, `_`
/// and `-`.
pub open spec fn safe_stem(s: Seq<char>) -> Seq<char> {
    kept_stem_chars(if s.len() <= 100 {
        s
    } else {
        s.take(100)
    })
}

/// A saved share image's name: the safe part of the requested stem (or
/// `coolapk_share_<seconds>`), and the extension of its MIME type.
pub open spec fn generated_image_name(stem: Option<Seq<char>>, mime: Seq<char>, now_secs: u64) -> Seq<
    char,
> {
    let safe = match stem {
        Some(s) => safe_stem(s),
        None => Seq::empty(),
    };
    let fin = if safe.len() == 0 {
        "coolapk_share_"@ + dec(now_secs as nat)
    } else {
        safe
    };
    fin + seq!['.'] + extension_for(mime)
}

/// A downloaded image's name: the safe part of the URL's file stem (or
/// `coolapk_image_<seconds>` when it is empty or `showimage`), and the
/// extension of its MIME type.
pub open spec fn downloaded_image_name(stem: Option<Seq<char>>, mime: Seq<char>, now_secs: u64) -> Seq<
    char,
> {
    let safe = match stem {
        Some(s) => safe_stem(s),
        None => Seq::empty(),
    };
    let fin = if safe.len() == 0 || eq_ic(safe, "showimage"@) {
        "coolapk_image_"@ + dec(now_secs as nat)
    } else {
        safe
    };
    fin + seq!['.'] + extension_for(mime)
}

/// The safe stem of a string.
fn safe_stem_text(stem: &str) -> (r: Vec<char>)
    ensures
        r@ == safe_stem(stem@),
{
    let cs = chars_of(stem);
    let n: usize = if cs.len() <= 100 {
        cs.len()
    } else {
        100
    };
    let ghost src = if cs@.len() <= 100 {
        cs@
    } else {
        cs@.take(100)
    };
    assert(src =~= cs@.take(n as int));
    let mut out: Vec<char> = Vec::new();
    let mut i: usize = 0;
    assert(src.skip(0) =~= src);
    while i < n
        invariant
            i <= n <= cs@.len(),
            src == cs@.take(n as int),
            kept_stem_chars(src) == out@ + kept_stem_chars(src.skip(i as int)),
        decreases n - i,
    {
        let c = cs[i];
        proof {
            let rest = src.skip(i as int);
            assert(rest[0] == c);
            assert(rest.drop_first() =~= src.skip(i + 1));
        }
        if crate::text::is_alnum_char(c) || c == '_' || c == '-' {
            out.push(c);
            assert(kept_stem_chars(src) =~= out@ + kept_stem_chars(src.skip(i + 1)));
        }
        i += 1;
    }
    assert(src.skip(n as int) =~= Seq::<char>::empty());
    assert(out@ =~= kept_stem_chars(src));
    out
}

/// The name for a share image: the safe part of a requested stem, or
/// `coolapk_share_<seconds>`, with the MIME type's extension.
pub fn generated_image_file_name(stem: Option<&str>, mime_type: &str, now_secs: u64) -> (r: String)
    ensures
        r@ == generated_image_name(
            match stem {
                Some(s) => Some(s@),
                None => None,
            },
            mime_type@,
            now_secs,
        ),
{
    let safe: Vec<char> = match stem {
        Some(s) => safe_stem_text(s),
        None => Vec::new(),
    };
    let mut out = String::new();
    if safe.len() == 0 {
        push_str(&mut out, "coolapk_share_");
        crate::text::push_dec(&mut out, now_secs);
    } else {
        push_range(&mut out, &safe, 0, safe.len());
        assert(safe@.subrange(0, safe@.len() as int) =~= safe@);
    }
    push_char(&mut out, '.');
    push_str(&mut out, image_extension(mime_type));
    assert(out@ =~= generated_image_name(
        match stem {
            Some(s) => Some(s@),
            None => None,
        },
        mime_type@,
        now_secs,
    ));
    out
}

/// The name for a downloaded image: the safe part of its URL's file stem,
/// or `coolapk_image_<seconds>`, with the MIME type's extension.
pub fn downloaded_image_file_name(stem: Option<&str>, mime_type: &str, now_secs: u64) -> (r: String)
    ensures
        r@ == downloaded_image_name(
            match stem {
                Some(s) => Some(s@),
                None => None,
            },
            mime_type@,
            now_secs,
        ),
{
    let safe: Vec<char> = match stem {
        Some(s) => safe_stem_text(s),
        None => Vec::new(),
    };
    let lowered = lower_chars(&safe);
    let mut out = String::new();
    proof {
        reveal_strlit("showimage");
        assert(lower_seq("showimage"@) =~= "showimage"@);
    }
    if safe.len() == 0 || chars_eq_str(&lowered, "showimage") {
        push_str(&mut out, "coolapk_image_");
        crate::text::push_dec(&mut out, now_secs);
    } else {
        push_range(&mut out, &safe, 0, safe.len());
        assert(safe@.subrange(0, safe@.len() as int) =~= safe@);
    }
    push_char(&mut out, '.');
    push_str(&mut out, image_extension(mime_type));
    assert(out@ =~= downloaded_image_name(
        match stem {
            Some(s) => Some(s@),
            None => None,
        },
        mime_type@,
        now_secs,
    ));
    out
}

/// The name for a share image from the name the page asked for: the stem
/// of that name (as `Path::file_stem` reads it) made safe, or
/// `coolapk_share_<seconds>`, with the MIME type's extension. So
/// `../unsafe/name.png` as `image/png` is saved as `name.png`.
pub fn build_generated_image_file_name(file_name: &str, mime_type: &str, now_secs: u64) -> (r: String)
    ensures
        r@ == generated_image_name(None, mime_type@, now_secs) || exists|s: Seq<char>|
            s.len() > 0 && crate::text::contains(file_name@, s) && r@ == generated_image_name(
                Some(s),
                mime_type@,
                now_secs,
            ),
        crate::downloads::portable_file_name(file_name@) matches Some(n) ==> r@ == generated_image_name(
            Some(crate::downloads::name_stem(n)),
            mime_type@,
            now_secs,
        ),
{
    let stem = path_file_stem(file_name);
    match stem {
        Some(s) => {
            let r = generated_image_file_name(Some(s.as_str()), mime_type, now_secs);
            assert(r@ == generated_image_name(Some(s@), mime_type@, now_secs));
            r
        },
        None => generated_image_file_name(None, mime_type, now_secs),
    }
}

/// The name for an image downloaded from `url`: the stem of the URL's last
/// path segment made safe, or `coolapk_image_<seconds>`, with the MIME
/// type's extension.
pub fn build_image_file_name(url: &str, mime_type: &str, now_secs: u64) -> (r: String)
    ensures
        r@ == downloaded_image_name(None, mime_type@, now_secs) || exists|s: Seq<char>|
            s.len() > 0 && (url_last_segment_of(url@) matches Some(seg) && crate::text::contains(
                seg,
                s,
            ) && r@ == downloaded_image_name(Some(s), mime_type@, now_secs)),
        url_last_segment_of(url@) is None ==> r@ == downloaded_image_name(None, mime_type@, now_secs),
        url_last_segment_of(url@) matches Some(seg) ==> (crate::downloads::portable_file_name(seg) matches Some(n)
            ==> r@ == downloaded_image_name(Some(crate::downloads::name_stem(n)), mime_type@, now_secs)),
{
    let segment = url_last_segment(url);
    let stem = match &segment {
        Some(seg) => path_file_stem(seg.as_str()),
        None => None,
    };
    match stem {
        Some(s) => {
            let r = downloaded_image_file_name(Some(s.as_str()), mime_type, now_secs);
            assert(r@ == downloaded_image_name(Some(s@), mime_type@, now_secs));
            r
        },
        None => downloaded_image_file_name(None, mime_type, now_secs),
    }
}

/// `<stem>_<index>.<extension>`: the name tried when a file name is taken.
pub fn numbered_file_name(stem: &str, extension: &str, index: u64) -> (r: String)
    ensures
        r@ == stem@ + seq!['_'] + dec(index as nat) + seq!['.'] + extension@,
{
    let mut out = String::new();
    push_str(&mut out, stem);
    push_char(&mut out, '_');
    crate::text::push_dec(&mut out, index);
    push_char(&mut out, '.');
    push_str(&mut out, extension);
    out
}

// ---------------------------------------------------------------------------
// The image cache
// ---------------------------------------------------------------------------

/// The MD5 digest of a URL's UTF-8 bytes in hexadecimal: the key the
/// cache and the system viewer file it under.
pub fn url_digest_hex(url: &str) -> (r: String)
    ensures
        r@ == hex_lower_text(md5_of(url.spec_bytes())),
{
    let digest = md5_digest(url.as_bytes());
    hex_encode(digest.as_slice())
}

/// `<md5 of url>.bin`, the cache file of an image URL.
pub fn image_cache_file_name(url: &str) -> (r: String)
    ensures
        r@ == hex_lower_text(md5_of(url.spec_bytes())) + ".bin"@,
{
    let mut r = url_digest_hex(url);
    push_str(&mut r, ".bin");
    r
}

/// `system-<md5 of url>.<extension>`, the file handed to the system image
/// viewer.
pub fn system_viewer_file_name(url: &str, mime_type: &str) -> (r: String)
    ensures
        r@ == "system-"@ + hex_lower_text(md5_of(url.spec_bytes())) + seq!['.'] + extension_for(
            mime_type@,
        ),
{
    let mut r = "system-".to_string();
    let key = url_digest_hex(url);
    push_str(&mut r, key.as_str());
    push_char(&mut r, '.');
    push_str(&mut r, image_extension(mime_type));
    r
}

/// First line of every cache file.
pub open spec fn cache_magic() -> Seq<char> {
    "COOLAPK_IMAGE_CACHE_V1"@
}

/// The MIME type a cache entry is written for: the header of a data URL
/// must read `data:<mime>;base64` with an image type.
pub open spec fn cache_header_mime(header: Seq<char>) -> Option<Seq<char>> {
    if starts_with(header, "data:"@) && ends_with(header, ";base64"@) && header.len() >= 12 {
        let m = header.subrange(5, header.len() - 7);
        if starts_with(m, "image/"@) {
            Some(m)
        } else {
            None
        }
    } else {
        None
    }
}

/// The bytes of a cache file: the magic line, the MIME line, then the
/// image.
pub open spec fn cache_file_bytes(mime: Seq<char>, image: Seq<u8>) -> Seq<u8> {
    vstd::utf8::encode_utf8(cache_magic() + seq!['\n'] + mime + seq!['\n']) + image
}

/// What writing a data URL to the cache stores, when it is a base64 image
/// data URL.
pub open spec fn cache_entry_for(data_url: Seq<char>) -> Option<Seq<u8>> {
    match data_url_split(data_url) {
        Some((header, payload)) => match cache_header_mime(header) {
            Some(mime) => match b64_decoding(vstd::utf8::encode_utf8(payload)) {
                Some(image) => Some(cache_file_bytes(mime, image)),
                None => None,
            },
            None => None,
        },
        None => None,
    }
}

/// Why a data URL cannot be cached.
pub enum CacheWriteError {
    Malformed,
    NotImage,
    Undecodable(String),
}

impl CacheWriteError {
    pub fn message(&self) -> (r: String)
        ensures
            match *self {
                CacheWriteError::Malformed => r@ == "图片数据格式不正确"@,
                CacheWriteError::NotImage => r@ == "图片类型不正确"@,
                CacheWriteError::Undecodable(e) => r@ == "图片缓存解码失败："@ + e@,
            },
    {
        match self {
            CacheWriteError::Malformed => "图片数据格式不正确".to_string(),
            CacheWriteError::NotImage => "图片类型不正确".to_string(),
            CacheWriteError::Undecodable(e) => {
                let mut m = "图片缓存解码失败：".to_string();
                push_str(&mut m, e.as_str());
                m
            },
        }
    }
}

/// Appends the bytes of a string.
fn push_bytes(out: &mut Vec<u8>, s: &str)
    ensures
        final(out)@ == old(out)@ + s.spec_bytes(),
{
    let b = s.as_bytes();
    let mut i: usize = 0;
    while i < b.len()
        invariant
            i <= b@.len(),
            out@ == old(out)@ + b@.take(i as int),
        decreases b@.len() - i,
    {
        out.push(b[i]);
        i += 1;
        assert(out@ =~= old(out)@ + b@.take(i as int));
    }
    assert(b@.take(i as int) =~= b@);
}

/// The bytes to store in the cache for a base64 image data URL.
pub fn image_cache_content(data_url: &str) -> (r: Result<Vec<u8>, CacheWriteError>)
    ensures
        match r {
            Ok(b) => cache_entry_for(data_url@) == Some(b@),
            Err(CacheWriteError::Malformed) => data_url_split(data_url@) is None,
            Err(CacheWriteError::NotImage) => data_url_split(data_url@) matches Some((h, p))
                && cache_header_mime(h) is None,
            Err(CacheWriteError::Undecodable(_)) => data_url_split(data_url@) matches Some((h, p))
                && cache_header_mime(h) is Some && b64_decoding(vstd::utf8::encode_utf8(p)) is None,
        },
{
    proof {
        reveal_strlit("data:");
        reveal_strlit(";base64");
        reveal_strlit("image/");
    }
    let cs = chars_of(data_url);
    let n = cs.len();
    let comma = match first_index(&cs, ',') {
        Some(i) => i,
        None => return Err(CacheWriteError::Malformed),
    };
    let payload = crate::text::string_of_range(&cs, comma + 1, n);
    assert(payload@ =~= cs@.skip(comma + 1));
    let ghost header = cs@.take(comma as int);
    assert(header =~= cs@.subrange(0, comma as int));
    if comma < 12 || !crate::text::range_eq_str(&cs, 0, 5, "data:") || !crate::text::range_eq_str(
        &cs,
        comma - 7,
        comma,
        ";base64",
    ) {
        proof {
            if header.len() >= 12 {
                assert(header.subrange(0, 5) =~= cs@.subrange(0, 5));
                assert(header.subrange(header.len() - 7, header.len() as int) =~= cs@.subrange(
                    comma - 7,
                    comma as int,
                ));
            }
        }
        return Err(CacheWriteError::NotImage);
    }
    assert(header.subrange(0, 5) =~= cs@.subrange(0, 5));
    assert(header.subrange(header.len() - 7, header.len() as int) =~= cs@.subrange(
        comma - 7,
        comma as int,
    ));
    let mime = crate::text::string_of_range(&cs, 5, comma - 7);
    assert(mime@ =~= header.subrange(5, header.len() - 7));
    if !crate::text::chars_start_with(&chars_of(mime.as_str()), "image/") {
        return Err(CacheWriteError::NotImage);
    }
    let image = match b64_decode(payload.as_str().as_bytes()) {
        Ok(bytes) => bytes,
        Err(e) => return Err(CacheWriteError::Undecodable(decode_error_text(&e))),
    };
    let mut head = "COOLAPK_IMAGE_CACHE_V1".to_string();
    push_char(&mut head, '\n');
    push_str(&mut head, mime.as_str());
    push_char(&mut head, '\n');
    let mut out: Vec<u8> = Vec::new();
    push_bytes(&mut out, head.as_str());
    let mut i: usize = 0;
    let ghost start = out@;
    while i < image.len()
        invariant
            i <= image@.len(),
            out@ == start + image@.take(i as int),
        decreases image@.len() - i,
    {
        out.push(image[i]);
        i += 1;
        assert(out@ =~= start + image@.take(i as int));
    }
    assert(image@.take(i as int) =~= image@);
    assert(head@ =~= cache_magic() + seq!['\n'] + mime@ + seq!['\n']);
    Ok(out)
}

/// Index of the first line feed in `b` at or after `from`.
pub open spec fn newline_from(b: Seq<u8>, from: int) -> Option<int>
    decreases b.len() - from,
{
    if from < 0 || from >= b.len() {
        None
    } else if b[from] == 10 {
        Some(from)
    } else {
        newline_from(b, from + 1)
    }
}

/// The first line, the second line and the rest of a cache file.
pub open spec fn cache_lines(b: Seq<u8>) -> Option<(Seq<u8>, Seq<u8>, Seq<u8>)> {
    match newline_from(b, 0) {
        Some(p) => match newline_from(b, p + 1) {
            Some(q) => Some((b.take(p), b.subrange(p + 1, q), b.skip(q + 1))),
            None => None,
        },
        None => None,
    }
}

/// The second line of a cache file, as text.
pub open spec fn cache_mime_line(b: Seq<u8>) -> Seq<char> {
    match cache_lines(b) {
        Some((m, t, img)) => vstd::utf8::decode_utf8(t),
        None => Seq::empty(),
    }
}

/// What reading a cache file gives.
pub enum CachedImage {
    /// The cached image as a base64 data URL.
    Image(String),
    /// The file does not have two UTF-8 header lines.
    Unreadable,
    /// The header lines are not a cache header: the file is to be removed.
    Invalid,
}

fn newline_index(b: &[u8], from: usize) -> (r: Option<usize>)
    requires
        from <= b@.len(),
    ensures
        match r {
            Some(i) => newline_from(b@, from as int) == Some(i as int) && from <= i < b@.len(),
            None => newline_from(b@, from as int) is None,
        },
{
    let mut i = from;
    while i < b.len()
        invariant
            from <= i <= b@.len(),
            newline_from(b@, from as int) == newline_from(b@, i as int),
        decreases b@.len() - i,
    {
        if b[i] == 10 {
            return Some(i);
        }
        i += 1;
    }
    None
}

fn copy_bytes(b: &[u8], lo: usize, hi: usize) -> (r: Vec<u8>)
    requires
        lo <= hi <= b@.len(),
    ensures
        r@ == b@.subrange(lo as int, hi as int),
{
    let mut r: Vec<u8> = Vec::new();
    let mut i = lo;
    while i < hi
        invariant
            lo <= i <= hi <= b@.len(),
            r@ == b@.subrange(lo as int, i as int),
        decreases hi - i,
    {
        r.push(b[i]);
        i += 1;
        assert(r@ =~= b@.subrange(lo as int, i as int));
    }
    r
}

proof fn lemma_newline_bounds(b: Seq<u8>, from: int)
    requires
        from >= 0,
    ensures
        match newline_from(b, from) {
            Some(i) => from <= i < b.len() && b[i] == 10 && forall|j: int| from <= j < i ==> b[j] != 10,
            None => forall|j: int| from <= j < b.len() ==> b[j] != 10,
        },
    decreases b.len() - from,
{
    if !(from < 0 || from >= b.len()) && b[from] != 10 {
        lemma_newline_bounds(b, from + 1);
    }
}

/// Writing the data URL a cache file reads as gives the same file back
/// (when the MIME type holds no comma).
proof fn lemma_cache_round_trip(b: Seq<u8>, mime: Seq<char>, enc: Seq<char>)
    requires
        cache_lines(b) matches Some((m, t, img)) && vstd::utf8::valid_utf8(m)
            && vstd::utf8::valid_utf8(t) && vstd::utf8::decode_utf8(m) == cache_magic()
            && vstd::utf8::decode_utf8(t) == mime && b64_decoding(vstd::utf8::encode_utf8(enc))
            == Some(img),
        starts_with(mime, "image/"@),
        forall|i: int| 0 <= i < mime.len() ==> mime[i] != ',',
        forall|i: int| 0 <= i < enc.len() ==> enc[i] != ',',
    ensures
        cache_entry_for("data:"@ + mime + ";base64,"@ + enc) == Some(b),
{
    reveal_strlit("data:");
    reveal_strlit(";base64,");
    reveal_strlit(";base64");
    reveal_strlit("image/");
    reveal_strlit("COOLAPK_IMAGE_CACHE_V1");
    let (m, t, img) = cache_lines(b)->0;
    let p = newline_from(b, 0)->0;
    let q = newline_from(b, p + 1)->0;
    lemma_newline_bounds(b, 0);
    lemma_newline_bounds(b, p + 1);
    let u = "data:"@ + mime + ";base64,"@ + enc;
    let k: int = (5 + mime.len() + 7) as int;
    assert(u[k] == ',');
    assert forall|j: int| 0 <= j < k implies u[j] != ',' by {
        if j < 5 {
            assert(u[j] == "data:"@[j]);
        } else if j < 5 + mime.len() {
            assert(u[j] == mime[j - 5]);
        } else {
            assert(u[j] == ";base64,"@[j - 5 - mime.len()]);
        }
    }
    crate::text::lemma_find_char_at(u, ',', k);
    let header = u.take(k);
    assert(header =~= "data:"@ + mime + ";base64"@);
    assert(u.skip(k + 1) =~= enc);
    assert(header.subrange(0, 5) =~= "data:"@);
    assert(header.subrange(header.len() - 7, header.len() as int) =~= ";base64"@);
    assert(header.subrange(5, header.len() - 7) =~= mime);
    vstd::utf8::decode_utf8_encode_utf8(m);
    vstd::utf8::decode_utf8_encode_utf8(t);
    let nl = seq!['\n'];
    crate::text::lemma_encode_utf8_concat(cache_magic(), nl);
    crate::text::lemma_encode_utf8_concat(cache_magic() + nl, mime);
    crate::text::lemma_encode_utf8_concat(cache_magic() + nl + mime, nl);
    assert(nl.drop_first() =~= Seq::<char>::empty());
    vstd::utf8::is_ascii_chars_encode_utf8(nl);
    assert(vstd::utf8::encode_utf8(nl) =~= seq![10u8]);
    assert(b =~= m + seq![10u8] + t + seq![10u8] + img);
}

/// Reads a cache file: `Image` with the data URL when it holds the cache
/// header and an image type, `Invalid` when the header lines say
/// otherwise, `Unreadable` when there are no two UTF-8 header lines.
/// Writing the data URL back stores the same bytes.
pub fn image_cache_data_url(bytes: &[u8]) -> (r: CachedImage)
    requires
        bytes@.len() <= usize::MAX / 2,
    ensures
        match cache_lines(bytes@) {
            None => r is Unreadable,
            Some((m, t, img)) => if !(vstd::utf8::valid_utf8(m) && vstd::utf8::valid_utf8(t)) {
                r is Unreadable
            } else if vstd::utf8::decode_utf8(m) != cache_magic() || !starts_with(
                vstd::utf8::decode_utf8(t),
                "image/"@,
            ) {
                r is Invalid
            } else {
                r matches CachedImage::Image(u) && u@ == "data:"@ + vstd::utf8::decode_utf8(t)
                    + ";base64,"@ + b64_encoding(img)
            },
        },
        r matches CachedImage::Image(u) ==> (!crate::text::contains(
            cache_mime_line(bytes@),
            seq![','],
        ) ==> cache_entry_for(u@) == Some(bytes@)),
{
    let n = bytes.len();
    let p = match newline_index(bytes, 0) {
        Some(p) => p,
        None => return CachedImage::Unreadable,
    };
    let q = match newline_index(bytes, p + 1) {
        Some(q) => q,
        None => return CachedImage::Unreadable,
    };
    let m = copy_bytes(bytes, 0, p);
    let t = copy_bytes(bytes, p + 1, q);
    let img = copy_bytes(bytes, q + 1, n);
    assert(m@ =~= bytes@.take(p as int));
    assert(img@ =~= bytes@.skip(q + 1));
    let magic = match utf8_text(m.as_slice()) {
        Some(s) => s,
        None => return CachedImage::Unreadable,
    };
    let mime = match utf8_text(t.as_slice()) {
        Some(s) => s,
        None => return CachedImage::Unreadable,
    };
    proof {
        reveal_strlit("COOLAPK_IMAGE_CACHE_V1");
    }
    if !chars_eq_str(&chars_of(magic.as_str()), "COOLAPK_IMAGE_CACHE_V1")
        || !crate::text::chars_start_with(&chars_of(mime.as_str()), "image/") {
        return CachedImage::Invalid;
    }
    let enc = b64_encode(img.as_slice());
    let mut u = "data:".to_string();
    push_str(&mut u, mime.as_str());
    push_str(&mut u, ";base64,");
    push_str(&mut u, enc.as_str());
    proof {
        if !crate::text::contains(mime@, seq![',']) {
            assert forall|i: int| 0 <= i < mime@.len() implies mime@[i] != ',' by {
                if mime@[i] == ',' {
                    assert(mime@.subrange(i, i + 1) =~= seq![',']);
                    assert(crate::text::occurs_at(mime@, seq![','], i));
                }
            }
            assert forall|i: int| 0 <= i < enc@.len() implies enc@[i] != ',' by {
                if i < enc@.len() - crate::outside::b64_padding(img@.len()) {
                    assert(crate::outside::b64_symbol(enc@[i]));
                }
            }
            lemma_cache_round_trip(bytes@, mime@, enc@);
        }
    }
    CachedImage::Image(u)
}

} // verus!
