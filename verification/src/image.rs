//! Image metadata read from raw bytes, and image URL normalisation.

use vstd::prelude::*;
use crate::text::{
    chars_of, chars_eq_str, dec, push_char, push_dec, push_range, push_str, range_starts_with,
    starts_with, strip_leading, strip_leading_range, strip_trailing, strip_trailing_range, trim,
    trim_range,
};

verus! {

pub open spec fn be16(b: Seq<u8>, i: int) -> int {
    b[i] * 256 + b[i + 1]
}

pub open spec fn le16(b: Seq<u8>, i: int) -> int {
    b[i] + b[i + 1] * 256
}

pub open spec fn le24(b: Seq<u8>, i: int) -> int {
    b[i] + b[i + 1] * 256 + b[i + 2] * 65536
}

pub open spec fn be32(b: Seq<u8>, i: int) -> int {
    b[i] * 16777216 + b[i + 1] * 65536 + b[i + 2] * 256 + b[i + 3]
}

pub open spec fn le32(b: Seq<u8>, i: int) -> int {
    b[i] + b[i + 1] * 256 + b[i + 2] * 65536 + b[i + 3] * 16777216
}

/// `b[at..]` starts with the bytes `p`.
pub open spec fn bytes_at(b: Seq<u8>, at: int, p: Seq<u8>) -> bool {
    at + p.len() <= b.len() && b.subrange(at, at + p.len()) == p
}

pub open spec fn png_signature() -> Seq<u8> {
    seq![0x89u8, 0x50, 0x4e, 0x47, 0x0d, 0x0a, 0x1a, 0x0a]
}

pub open spec fn gif87a() -> Seq<u8> {
    seq![0x47u8, 0x49, 0x46, 0x38, 0x37, 0x61]
}

pub open spec fn gif89a() -> Seq<u8> {
    seq![0x47u8, 0x49, 0x46, 0x38, 0x39, 0x61]
}

/// The start-of-frame markers that carry the frame size.
pub open spec fn is_sof(m: u8) -> bool {
    (0xc0 <= m <= 0xc3) || (0xc5 <= m <= 0xc7) || (0xc9 <= m <= 0xcb) || (0xcd <= m <= 0xcf)
}

/// The first index at or after `i` that does not hold the fill byte `0xff`.
pub open spec fn skip_fill(b: Seq<u8>, i: int) -> int
    decreases b.len() - i,
{
    if 0 <= i < b.len() && b[i] == 0xff {
        skip_fill(b, i + 1)
    } else {
        i
    }
}

/// Walks JPEG segments from `index` until a start-of-frame segment gives
/// `(width, height)`, or the scan stops.
pub open spec fn jpeg_scan(b: Seq<u8>, index: int) -> Option<(int, int)>
    decreases b.len() - index,
{
    if !(0 <= index && index + 9 < b.len()) {
        None
    } else if b[index] != 0xff {
        jpeg_scan(b, index + 1)
    } else {
        let j = skip_fill(b, index);
        if j >= b.len() || j < index {
            None
        } else {
            let marker = b[j];
            let k = j + 1;
            if marker == 0xda || marker == 0xd9 {
                None
            } else if k + 1 >= b.len() {
                None
            } else {
                let seg = be16(b, k);
                if seg < 2 || k + seg > b.len() {
                    None
                } else if is_sof(marker) && seg >= 7 {
                    Some((be16(b, k + 5), be16(b, k + 3)))
                } else {
                    jpeg_scan(b, k + seg)
                }
            }
        }
    }
}

/// Width and height read from the header of a PNG, GIF, BMP, extended
/// WebP or JPEG image.
pub open spec fn image_dimensions(b: Seq<u8>) -> Option<(int, int)> {
    if bytes_at(b, 0, png_signature()) && b.len() >= 24 {
        Some((be32(b, 16), be32(b, 20)))
    } else if (bytes_at(b, 0, gif87a()) || bytes_at(b, 0, gif89a())) && b.len() >= 10 {
        Some((le16(b, 6), le16(b, 8)))
    } else if bytes_at(b, 0, seq![0x42u8, 0x4d]) && b.len() >= 26 {
        Some((le32(b, 18), le32(b, 22)))
    } else if bytes_at(b, 0, seq![0x52u8, 0x49, 0x46, 0x46]) && b.len() >= 30 && bytes_at(
        b,
        8,
        seq![0x57u8, 0x45, 0x42, 0x50],
    ) && bytes_at(b, 12, seq![0x56u8, 0x50, 0x38, 0x58]) {
        Some((1 + le24(b, 24), 1 + le24(b, 27)))
    } else if bytes_at(b, 0, seq![0xffu8, 0xd8]) {
        jpeg_scan(b, 2)
    } else {
        None
    }
}

/// `"{width}x{height}"` when both are positive, else `"0x0"`.
pub open spec fn resolution_text(d: Option<(int, int)>) -> Seq<char> {
    match d {
        Some((w, h)) => if w > 0 && h > 0 {
            dec(w as nat) + "x"@ + dec(h as nat)
        } else {
            "0x0"@
        },
        None => "0x0"@,
    }
}

/// A JPEG whose first segment is a start-of-frame segment (baseline,
/// extended or progressive) is as wide as the big-endian number at offset 5
/// of that segment and as high as the one at offset 3; its resolution reads
/// width, `x`, height.
pub proof fn law_jpeg_frame_size(b: Seq<u8>)
    requires
        b.len() >= 12,
        b[0] == 0xff && b[1] == 0xd8 && b[2] == 0xff,
        b[3] == 0xc0 || b[3] == 0xc1 || b[3] == 0xc2,
        b[4] * 256 + b[5] >= 7,
        4 + b[4] * 256 + b[5] <= b.len(),
    ensures
        image_dimensions(b) == Some((b[9] * 256 + b[10], b[7] * 256 + b[8])),
        b[9] * 256 + b[10] > 0 && b[7] * 256 + b[8] > 0 ==> resolution_text(image_dimensions(b)) == dec(
            (b[9] * 256 + b[10]) as nat,
        ) + "x"@ + dec((b[7] * 256 + b[8]) as nat),
{
    assert(!bytes_at(b, 0, png_signature())) by {
        if bytes_at(b, 0, png_signature()) {
            assert(b.subrange(0, 8)[0] == b[0]);
        }
    }
    assert(!bytes_at(b, 0, gif87a())) by {
        if bytes_at(b, 0, gif87a()) {
            assert(b.subrange(0, 6)[0] == b[0]);
        }
    }
    assert(!bytes_at(b, 0, gif89a())) by {
        if bytes_at(b, 0, gif89a()) {
            assert(b.subrange(0, 6)[0] == b[0]);
        }
    }
    assert(!bytes_at(b, 0, seq![0x42u8, 0x4d])) by {
        if bytes_at(b, 0, seq![0x42u8, 0x4d]) {
            assert(b.subrange(0, 2)[0] == b[0]);
        }
    }
    assert(!bytes_at(b, 0, seq![0x52u8, 0x49, 0x46, 0x46])) by {
        if bytes_at(b, 0, seq![0x52u8, 0x49, 0x46, 0x46]) {
            assert(b.subrange(0, 4)[0] == b[0]);
        }
    }
    assert(bytes_at(b, 0, seq![0xffu8, 0xd8])) by {
        assert(b.subrange(0, 2) =~= seq![0xffu8, 0xd8]);
    }
    assert(skip_fill(b, 3) == 3);
    assert(skip_fill(b, 2) == 3);
    assert(jpeg_scan(b, 2) == Some((be16(b, 9), be16(b, 7))));
}

fn bytes_match(b: &[u8], at: usize, p: &[u8]) -> (r: bool)
    ensures
        r == bytes_at(b@, at as int, p@),
{
    if at > b.len() || p.len() > b.len() - at {
        return false;
    }
    let n = b.len();
    let mut i: usize = 0;
    while i < p.len()
        invariant
            n == b@.len(),
            at + p@.len() <= b@.len(),
            i <= p@.len(),
            forall|j: int| 0 <= j < i ==> b@[at + j] == p@[j],
        decreases p@.len() - i,
    {
        assert(at + i < n);
        if b[at + i] != p[i] {
            assert(b@.subrange(at as int, at + p@.len())[i as int] != p@[i as int]);
            return false;
        }
        i += 1;
    }
    assert(b@.subrange(at as int, at + p@.len()) =~= p@);
    true
}

fn read_be16(b: &[u8], i: usize) -> (r: u32)
    requires
        i + 1 < b@.len(),
    ensures
        r == be16(b@, i as int),
{
    (b[i] as u32) * 256 + (b[i + 1] as u32)
}

fn read_le16(b: &[u8], i: usize) -> (r: u32)
    requires
        i + 1 < b@.len(),
    ensures
        r == le16(b@, i as int),
{
    (b[i] as u32) + (b[i + 1] as u32) * 256
}

fn read_le24(b: &[u8], i: usize) -> (r: u32)
    requires
        i + 2 < b@.len(),
    ensures
        r == le24(b@, i as int),
{
    (b[i] as u32) + (b[i + 1] as u32) * 256 + (b[i + 2] as u32) * 65536
}

fn read_be32(b: &[u8], i: usize) -> (r: u32)
    requires
        i + 3 < b@.len(),
    ensures
        r == be32(b@, i as int),
{
    (b[i] as u32) * 16777216 + (b[i + 1] as u32) * 65536 + (b[i + 2] as u32) * 256 + (b[i
        + 3] as u32)
}

fn read_le32(b: &[u8], i: usize) -> (r: u32)
    requires
        i + 3 < b@.len(),
    ensures
        r == le32(b@, i as int),
{
    (b[i] as u32) + (b[i + 1] as u32) * 256 + (b[i + 2] as u32) * 65536 + (b[i + 3] as u32)
        * 16777216
}

/// Scans JPEG segments for the frame size.
pub fn jpeg_resolution(image_bytes: &[u8]) -> (r: Option<(u32, u32)>)
    ensures
        match r {
            Some((w, h)) => jpeg_scan(image_bytes@, 2) == Some((w as int, h as int)),
            None => jpeg_scan(image_bytes@, 2) == None::<(int, int)>,
        },
{
    let b = image_bytes;
    let n = b.len();
    let mut index: usize = 2;
    loop
        invariant
            n == b@.len(),
            b@ == image_bytes@,
            2 <= index,
            jpeg_scan(b@, 2) == jpeg_scan(b@, index as int),
        decreases n - index,
    {
        if !(index < n && n - index > 9) {
            return None;
        }
        if b[index] != 0xff {
            index += 1;
            continue;
        }
        let start = index;
        while index < n && b[index] == 0xff
            invariant
                n == b@.len(),
                start <= index <= n,
                start < n,
                skip_fill(b@, start as int) == skip_fill(b@, index as int),
            decreases n - index,
        {
            index += 1;
        }
        if index >= n {
            return None;
        }
        let marker = b[index];
        index += 1;
        if marker == 0xda || marker == 0xd9 {
            return None;
        }
        if n - index <= 1 {
            return None;
        }
        let segment_length = read_be16(b, index) as usize;
        if segment_length < 2 || segment_length > n - index {
            return None;
        }
        let is_sof = (0xc0 <= marker && marker <= 0xc3) || (0xc5 <= marker && marker <= 0xc7) || (
        0xc9 <= marker && marker <= 0xcb) || (0xcd <= marker && marker <= 0xcf);
        if is_sof && segment_length >= 7 {
            let height = read_be16(b, index + 3);
            let width = read_be16(b, index + 5);
            return Some((width, height));
        }
        index += segment_length;
    }
}

/// `"{width}x{height}"` of an uploaded image, `"0x0"` when unknown.
pub fn image_resolution(image_bytes: &[u8]) -> (r: String)
    ensures
        r@ == resolution_text(image_dimensions(image_bytes@)),
{
    let b = image_bytes;
    let png: [u8; 8] = [0x89, 0x50, 0x4e, 0x47, 0x0d, 0x0a, 0x1a, 0x0a];
    let g7: [u8; 6] = [0x47, 0x49, 0x46, 0x38, 0x37, 0x61];
    let g9: [u8; 6] = [0x47, 0x49, 0x46, 0x38, 0x39, 0x61];
    let bm: [u8; 2] = [0x42, 0x4d];
    let riff: [u8; 4] = [0x52, 0x49, 0x46, 0x46];
    let webp: [u8; 4] = [0x57, 0x45, 0x42, 0x50];
    let vp8x: [u8; 4] = [0x56, 0x50, 0x38, 0x58];
    let soi: [u8; 2] = [0xff, 0xd8];
    proof {
        assert(png@ =~= png_signature());
        assert(g7@ =~= gif87a());
        assert(g9@ =~= gif89a());
        assert(bm@ =~= seq![0x42u8, 0x4d]);
        assert(riff@ =~= seq![0x52u8, 0x49, 0x46, 0x46]);
        assert(webp@ =~= seq![0x57u8, 0x45, 0x42, 0x50]);
        assert(vp8x@ =~= seq![0x56u8, 0x50, 0x38, 0x58]);
        assert(soi@ =~= seq![0xffu8, 0xd8]);
    }
    let dims: Option<(u32, u32)> = if bytes_match(b, 0, &png) && b.len() >= 24 {
        Some((read_be32(b, 16), read_be32(b, 20)))
    } else if (bytes_match(b, 0, &g7) || bytes_match(b, 0, &g9)) && b.len() >= 10 {
        Some((read_le16(b, 6), read_le16(b, 8)))
    } else if bytes_match(b, 0, &bm) && b.len() >= 26 {
        Some((read_le32(b, 18), read_le32(b, 22)))
    } else if bytes_match(b, 0, &riff) && b.len() >= 30 && bytes_match(b, 8, &webp) && bytes_match(
        b,
        12,
        &vp8x,
    ) {
        Some((1 + read_le24(b, 24), 1 + read_le24(b, 27)))
    } else if bytes_match(b, 0, &soi) {
        jpeg_resolution(b)
    } else {
        None
    };
    let mut out = String::new();
    match dims {
        Some((w, h)) if w > 0 && h > 0 => {
            push_dec(&mut out, w as u64);
            push_char(&mut out, 'x');
            push_dec(&mut out, h as u64);
            proof {
                reveal_strlit("x");
            }
            assert(out@ =~= dec(w as nat) + "x"@ + dec(h as nat));
        },
        _ => {
            push_str(&mut out, "0x0");
            assert(out@ =~= "0x0"@);
        },
    }
    out
}

// ---------------------------------------------------------------------------
// Image URLs
// ---------------------------------------------------------------------------

/// `prefix/file_name` for an uploaded image when the prefix is an HTTP(S)
/// origin and both parts are non-empty after trimming slashes.
pub open spec fn oss_image_url(prefix: Seq<char>, file_name: Seq<char>) -> Option<Seq<char>> {
    let p = strip_trailing(trim(prefix), '/');
    let f = strip_leading(trim(file_name), '/');
    if (starts_with(p, "http://"@) || starts_with(p, "https://"@)) && p.len() > 0 && f.len() > 0 {
        Some(p + "/"@ + f)
    } else {
        None
    }
}

/// The image address the official client submits after an OSS upload.
pub fn build_oss_image_url(prefix: &str, file_name: &str) -> (r: Option<String>)
    ensures
        match r {
            Some(u) => oss_image_url(prefix@, file_name@) == Some(u@),
            None => oss_image_url(prefix@, file_name@) == None::<Seq<char>>,
        },
{
    let pc = chars_of(prefix);
    let fc = chars_of(file_name);
    let (pa, pb0) = trim_range(&pc, 0, pc.len());
    let pb = strip_trailing_range(&pc, pa, pb0, '/');
    let (fa0, fb) = trim_range(&fc, 0, fc.len());
    let fa = strip_leading_range(&fc, fa0, fb, '/');
    proof {
        assert(pc@.subrange(0, pc@.len() as int) =~= prefix@);
        assert(fc@.subrange(0, fc@.len() as int) =~= file_name@);
    }
    let http: Vec<char> = chars_of("http://");
    let https: Vec<char> = chars_of("https://");
    if (range_starts_with(&pc, pa, pb, &http) || range_starts_with(&pc, pa, pb, &https)) && pa < pb
        && fa < fb {
        let mut out = String::new();
        push_range(&mut out, &pc, pa, pb);
        push_char(&mut out, '/');
        push_range(&mut out, &fc, fa, fb);
        proof {
            reveal_strlit("/");
        }
        assert(out@ =~= pc@.subrange(pa as int, pb as int) + "/"@ + fc@.subrange(fa as int, fb as int));
        Some(out)
    } else {
        None
    }
}

/// A Coolapk image reference made absolute: blank, `null` and `undefined`
/// give nothing; HTTP(S) addresses are kept; anything else is a path on the
/// image host.
pub open spec fn normalized_image_url(value: Seq<char>) -> Option<Seq<char>> {
    let t = trim(value);
    if t.len() == 0 || t == "null"@ || t == "undefined"@ {
        None
    } else if starts_with(t, "http://"@) || starts_with(t, "https://"@) {
        Some(t)
    } else {
        Some("https://image.coolapk.com/"@ + strip_leading(t, '/'))
    }
}

pub fn normalize_coolapk_image_url(value: &str) -> (r: Option<String>)
    ensures
        match r {
            Some(u) => normalized_image_url(value@) == Some(u@),
            None => normalized_image_url(value@) == None::<Seq<char>>,
        },
{
    let cs = chars_of(value);
    let (a, b) = trim_range(&cs, 0, cs.len());
    assert(cs@.subrange(0, cs@.len() as int) =~= value@);
    let ghost t = cs@.subrange(a as int, b as int);
    if a == b || crate::text::range_eq_str(&cs, a, b, "null") || crate::text::range_eq_str(
        &cs,
        a,
        b,
        "undefined",
    ) {
        return None;
    }
    let http: Vec<char> = chars_of("http://");
    let https: Vec<char> = chars_of("https://");
    let mut out = String::new();
    if range_starts_with(&cs, a, b, &http) || range_starts_with(&cs, a, b, &https) {
        push_range(&mut out, &cs, a, b);
        assert(out@ =~= t);
    } else {
        let s = strip_leading_range(&cs, a, b, '/');
        push_str(&mut out, "https://image.coolapk.com/");
        push_range(&mut out, &cs, s, b);
    }
    Some(out)
}

} // verus!
