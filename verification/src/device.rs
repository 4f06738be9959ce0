//! Device codes: the `X-App-Device` value the client sends.
//!
//! A device code is a raw device description (`id; ; ; mac; maker; brand;
//! model; build; tail`) encoded as standard base64, written backwards and
//! with the `=` padding dropped. Decoding reverses the text, restores the
//! padding and decodes the base64.

use vstd::prelude::*;
use crate::outside::{
    b64_decode, b64_decoding, b64_encode, b64_encoding, b64_padding, b64_symbol, hex_lower_text,
    hex_pair, md5_digest, md5_of, utf8_text,
};
use crate::text::{
    trim,
    chars_contain, chars_of, contains, hex_lower, hex_lower_char, hex_min2, hex_upper, push_char,
    push_hex_min2, push_str, utf8_len, lemma_encode_utf8_concat,
};
use vstd::string::StringSliceAdditionalSpecFns;

verus! {

// ---------------------------------------------------------------------------
// The encoding
// ---------------------------------------------------------------------------

/// Characters that are dropped from the reversed base64 text.
pub open spec fn is_pad_char(c: char) -> bool {
    c == '=' || c == '\r' || c == '\n'
}

/// `s` written backwards, without padding characters.
pub open spec fn reverse_unpadded(s: Seq<char>) -> Seq<char>
    decreases s.len(),
{
    if s.len() == 0 {
        Seq::empty()
    } else {
        let rest = reverse_unpadded(s.drop_first());
        if is_pad_char(s[0]) {
            rest
        } else {
            rest.push(s[0])
        }
    }
}

/// The device code of a raw device description.
pub open spec fn device_code_of(raw: Seq<char>) -> Seq<char> {
    reverse_unpadded(b64_encoding(vstd::utf8::encode_utf8(raw)))
}

/// `n` copies of `=`.
pub open spec fn equals_signs(n: nat) -> Seq<char> {
    Seq::new(n, |i: int| '=')
}

/// Padding that brings a byte length up to a multiple of four.
pub open spec fn pad_to_four(n: nat) -> nat {
    ((4 - n % 4) % 4) as nat
}

/// The base64 text a device code stands for: the code reversed, padded
/// with `=` to a multiple of four bytes.
pub open spec fn restored(code: Seq<char>) -> Seq<char> {
    let rev = code.reverse();
    rev + equals_signs(pad_to_four(utf8_len(rev)))
}

/// The text a device code decodes to, when its base64 is valid and the
/// bytes are UTF-8.
pub open spec fn device_code_text(code: Seq<char>) -> Option<Seq<char>> {
    match b64_decoding(vstd::utf8::encode_utf8(restored(code))) {
        Some(bytes) => if vstd::utf8::valid_utf8(bytes) {
            Some(vstd::utf8::decode_utf8(bytes))
        } else {
            None
        },
        None => None,
    }
}

/// A device code has the official shape: it is not empty and decodes to a
/// description whose fields are separated by `"; "`.
pub open spec fn device_code_valid(code: Seq<char>) -> bool {
    code.len() > 0 && match device_code_text(code) {
        Some(t) => contains(t, "; "@),
        None => false,
    }
}

pub open spec fn is_ascii_seq(s: Seq<char>) -> bool {
    vstd::utf8::is_ascii_chars(s)
}

/// Reversing and dropping the padding of a padded base64 text.
proof fn lemma_reverse_unpadded_prefix(s: Seq<char>, m: int)
    requires
        0 <= m <= s.len(),
        forall|i: int| 0 <= i < m ==> !is_pad_char(#[trigger] s[i]),
        forall|i: int| m <= i < s.len() ==> is_pad_char(#[trigger] s[i]),
    ensures
        reverse_unpadded(s) == s.take(m).reverse(),
    decreases s.len(),
{
    if s.len() == 0 {
        assert(s.take(m).reverse() =~= Seq::<char>::empty());
    } else if m == 0 {
        lemma_reverse_unpadded_prefix(s.drop_first(), 0);
        assert(s.drop_first().take(0).reverse() =~= Seq::<char>::empty());
        assert(s.take(0).reverse() =~= Seq::<char>::empty());
    } else {
        let t = s.drop_first();
        assert forall|i: int| 0 <= i < m - 1 implies !is_pad_char(#[trigger] t[i]) by {
            assert(t[i] == s[i + 1]);
        }
        assert forall|i: int| m - 1 <= i < t.len() implies is_pad_char(#[trigger] t[i]) by {
            assert(t[i] == s[i + 1]);
        }
        lemma_reverse_unpadded_prefix(t, m - 1);
        assert(t.take(m - 1).reverse().push(s[0]) =~= s.take(m).reverse());
    }
}

/// A padded base64 text survives the trip through a device code.
proof fn lemma_restore_encoding(enc: Seq<char>, n: nat)
    requires
        enc.len() == 4 * ((n + 2) / 3),
        n > 0,
        forall|i: int| 0 <= i < enc.len() - b64_padding(n) ==> b64_symbol(#[trigger] enc[i]),
        forall|i: int| enc.len() - b64_padding(n) <= i < enc.len() ==> #[trigger] enc[i] == '=',
    ensures
        restored(reverse_unpadded(enc)) == enc,
        reverse_unpadded(enc).len() == enc.len() - b64_padding(n),
        reverse_unpadded(enc).len() > 0,
        forall|i: int| 0 <= i < reverse_unpadded(enc).len() ==> b64_symbol(#[trigger] reverse_unpadded(enc)[i]),
{
    let p = b64_padding(n);
    let m = enc.len() - p;
    assert(p <= 2);
    assert(enc.len() >= 4);
    assert forall|i: int| 0 <= i < m implies !is_pad_char(#[trigger] enc[i]) by {
        assert(b64_symbol(enc[i]));
    }
    lemma_reverse_unpadded_prefix(enc, m);
    let code = reverse_unpadded(enc);
    let kept = enc.take(m);
    assert(code.reverse() =~= kept);
    assert(is_ascii_seq(kept)) by {
        assert forall|i: int| 0 <= i < kept.len() implies '\0' <= #[trigger] kept[i] <= '\u{7f}' by {
            assert(b64_symbol(enc[i]));
        }
    }
    vstd::utf8::is_ascii_chars_encode_utf8(kept);
    assert(utf8_len(kept) == m);
    assert(enc.len() % 4 == 0);
    assert(pad_to_four(m as nat) == p);
    assert(kept + equals_signs(p) =~= enc);
    assert forall|i: int| 0 <= i < code.len() implies b64_symbol(#[trigger] code[i]) by {
        assert(code[i] == kept[kept.len() - 1 - i]);
        assert(b64_symbol(enc[kept.len() - 1 - i]));
    }
}

/// Encodes a raw device description as a device code.
fn encode_device_code(raw: &str) -> (r: String)
    requires
        raw.spec_bytes().len() <= usize::MAX / 2,
        raw@.len() > 0,
    ensures
        r@ == device_code_of(raw@),
        r@.len() == 4 * ((utf8_len(raw@) + 2) / 3) - b64_padding(utf8_len(raw@)),
        r@.len() > 0,
        forall|i: int| 0 <= i < r@.len() ==> b64_symbol(#[trigger] r@[i]),
        device_code_text(r@) == Some(raw@),
{
    let bytes = raw.as_bytes();
    let enc = b64_encode(bytes);
    let cs = chars_of(enc.as_str());
    let n = cs.len();
    let mut out = String::new();
    let mut i = n;
    assert(cs@.subrange(n as int, n as int) =~= Seq::<char>::empty());
    while i > 0
        invariant
            i <= n == cs@.len(),
            out@ == reverse_unpadded(cs@.subrange(i as int, n as int)),
        decreases i,
    {
        i -= 1;
        let c = cs[i];
        assert(cs@.subrange(i as int, n as int).drop_first() =~= cs@.subrange(i + 1, n as int));
        if !(c == '=' || c == '\r' || c == '\n') {
            push_char(&mut out, c);
        }
    }
    proof {
        assert(cs@.subrange(0, n as int) =~= cs@);
        let data = vstd::utf8::encode_utf8(raw@);
        assert(bytes@ == data);
        if data.len() == 0 {
            assert(raw@.len() > 0);
            assert(vstd::utf8::encode_scalar(raw@[0] as u32).len() > 0);
            assert(false);
        }
        lemma_restore_encoding(cs@, data.len());
        vstd::utf8::encode_utf8_valid_utf8(raw@);
        vstd::utf8::encode_utf8_decode_utf8(raw@);
    }
    out
}

// ---------------------------------------------------------------------------
// Generated descriptions
// ---------------------------------------------------------------------------

/// The Android ID derived from a digest: its first eight bytes read as a
/// little-endian `u64`, in sixteen lower-case hexadecimal digits.
pub open spec fn android_id(digest: Seq<u8>) -> Seq<char> {
    hex_lower_text(digest.take(8).reverse())
}

/// Everything after the Android ID in an account description.
pub open spec fn account_tail() -> Seq<char> {
    "; ; ; ; Xiaomi; Xiaomi; 23113RKC6C; UKQ1.230804.001; "@
}

/// The device description an account (or seed) identifier stands for.
pub open spec fn account_description(id: Seq<char>) -> Seq<char> {
    android_id(md5_of(vstd::utf8::encode_utf8(id))) + account_tail()
}

/// The MAC address derived from a digest: its first six bytes, the first
/// one marked locally administered and unicast.
pub open spec fn mac_octets(digest: Seq<u8>) -> Seq<u8> {
    seq![(digest[0] & 0xfe) | 0x02, digest[1], digest[2], digest[3], digest[4], digest[5]]
}

/// `format!("{:02X}")` of each octet, joined with `:`.
pub open spec fn mac_text(m: Seq<u8>) -> Seq<char> {
    hex_min2(m[0] as nat) + seq![':'] + hex_min2(m[1] as nat) + seq![':'] + hex_min2(m[2] as nat)
        + seq![':'] + hex_min2(m[3] as nat) + seq![':'] + hex_min2(m[4] as nat) + seq![':']
        + hex_min2(m[5] as nat)
}

pub open spec fn szlm_head() -> Seq<char> {
    "; ; ; "@
}

pub open spec fn szlm_tail() -> Seq<char> {
    "; Xiaomi; Xiaomi; 23113RKC6C; UKQ1.230804.001; null"@
}

/// The device description a Digital Alliance (szlm) ID stands for: the ID
/// itself as first field, a MAC derived from its MD5 digest.
pub open spec fn szlm_description(id: Seq<char>) -> Seq<char> {
    id + szlm_head() + mac_text(mac_octets(md5_of(vstd::utf8::encode_utf8(id)))) + szlm_tail()
}

proof fn lemma_hex_lower_text(d: Seq<u8>)
    ensures
        hex_lower_text(d).len() == 2 * d.len(),
        is_ascii_seq(hex_lower_text(d)),
    decreases d.len(),
{
    if d.len() > 0 {
        lemma_hex_lower_text(d.drop_last());
        let b = d.last();
        assert(b / 16 < 16 && b % 16 < 16);
        let t = hex_lower_text(d);
        assert forall|i: int| 0 <= i < t.len() implies '\0' <= #[trigger] t[i] <= '\u{7f}' by {
            if i < t.len() - 2 {
                assert(t[i] == hex_lower_text(d.drop_last())[i]);
            }
        }
    }
}

proof fn lemma_hex_min2(b: u8)
    ensures
        hex_min2(b as nat).len() == 2,
        is_ascii_seq(hex_min2(b as nat)),
{
    if b >= 16 {
        reveal_with_fuel(crate::text::hex_digits, 2);
        assert(b / 16 < 16);
    }
}

proof fn lemma_ascii_concat(a: Seq<char>, b: Seq<char>)
    requires
        is_ascii_seq(a),
        is_ascii_seq(b),
    ensures
        is_ascii_seq(a + b),
{
    assert forall|i: int| 0 <= i < (a + b).len() implies '\0' <= #[trigger] (a + b)[i] <= '\u{7f}' by {
        if i < a.len() {
            assert((a + b)[i] == a[i]);
        } else {
            assert((a + b)[i] == b[i - a.len()]);
        }
    }
}

proof fn lemma_ascii_len(s: Seq<char>)
    requires
        is_ascii_seq(s),
    ensures
        utf8_len(s) == s.len(),
{
    vstd::utf8::is_ascii_chars_encode_utf8(s);
}

/// Appends the lower-case hexadecimal digits of `digest[..8]` read
/// backwards.
fn android_id_text(digest: &Vec<u8>) -> (r: String)
    requires
        digest@.len() >= 8,
    ensures
        r@ == android_id(digest@),
{
    let ghost rev = digest@.take(8).reverse();
    let mut out = String::new();
    let mut j: usize = 0;
    assert(rev.take(0) =~= Seq::<u8>::empty());
    while j < 8
        invariant
            j <= 8 <= digest@.len(),
            rev == digest@.take(8).reverse(),
            out@ == hex_lower_text(rev.take(j as int)),
        decreases 8 - j,
    {
        let b = digest[7 - j];
        assert(rev[j as int] == b);
        push_char(&mut out, hex_lower_char((b / 16) as u32));
        push_char(&mut out, hex_lower_char((b % 16) as u32));
        assert(rev.take(j + 1).drop_last() =~= rev.take(j as int));
        assert(out@ =~= hex_lower_text(rev.take(j as int)) + hex_pair(b));
        j += 1;
    }
    assert(rev.take(8) =~= rev);
    out
}

/// The device code of an account: derived from the UID's MD5 digest, so
/// the same account always presents the same device. It decodes back to
/// the account's description.
pub fn generate_device_code_for_id(uid: &str) -> (r: String)
    ensures
        r@ == device_code_of(account_description(uid@)),
        device_code_text(r@) == Some(account_description(uid@)),
        device_code_valid(r@),
        r@.len() == 92,
        forall|i: int| 0 <= i < r@.len() ==> b64_symbol(#[trigger] r@[i]),
{
    let digest = md5_digest(uid.as_bytes());
    let mut raw = android_id_text(&digest);
    push_str(&mut raw, "; ; ; ; Xiaomi; Xiaomi; 23113RKC6C; UKQ1.230804.001; ");
    proof {
        reveal_strlit("; ; ; ; Xiaomi; Xiaomi; 23113RKC6C; UKQ1.230804.001; ");
        reveal_strlit("; ");
        let id = android_id(digest@);
        assert(raw@ == id + account_tail());
        assert(account_tail().len() == 53);
        lemma_hex_lower_text(digest@.take(8).reverse());
        assert(is_ascii_seq(account_tail()));
        lemma_ascii_concat(id, account_tail());
        lemma_ascii_len(raw@);
        assert(raw@.len() == 69);
        assert(id.len() == 16);
        assert(raw@.subrange(16, 18) =~= "; "@);
        assert(crate::text::occurs_at(raw@, "; "@, 16));
    }
    let r = encode_device_code(raw.as_str());
    r
}

proof fn lemma_mac_text(m: Seq<u8>)
    requires
        m.len() == 6,
    ensures
        mac_text(m).len() == 17,
        is_ascii_seq(mac_text(m)),
{
    let colon = seq![':'];
    assert(is_ascii_seq(colon));
    lemma_hex_min2(m[0]);
    lemma_hex_min2(m[1]);
    lemma_hex_min2(m[2]);
    lemma_hex_min2(m[3]);
    lemma_hex_min2(m[4]);
    lemma_hex_min2(m[5]);
    let a0 = hex_min2(m[0] as nat) + colon;
    lemma_ascii_concat(hex_min2(m[0] as nat), colon);
    let a1 = a0 + hex_min2(m[1] as nat);
    lemma_ascii_concat(a0, hex_min2(m[1] as nat));
    let a2 = a1 + colon;
    lemma_ascii_concat(a1, colon);
    let a3 = a2 + hex_min2(m[2] as nat);
    lemma_ascii_concat(a2, hex_min2(m[2] as nat));
    let a4 = a3 + colon;
    lemma_ascii_concat(a3, colon);
    let a5 = a4 + hex_min2(m[3] as nat);
    lemma_ascii_concat(a4, hex_min2(m[3] as nat));
    let a6 = a5 + colon;
    lemma_ascii_concat(a5, colon);
    let a7 = a6 + hex_min2(m[4] as nat);
    lemma_ascii_concat(a6, hex_min2(m[4] as nat));
    let a8 = a7 + colon;
    lemma_ascii_concat(a7, colon);
    let a9 = a8 + hex_min2(m[5] as nat);
    lemma_ascii_concat(a8, hex_min2(m[5] as nat));
    assert(mac_text(m) == a9);
}

/// The device code of a Digital Alliance ID: the ID is the first field,
/// and the MAC is derived from its MD5 digest, so the same ID always gives
/// the same code. It decodes back to the ID's description.
pub fn generate_device_code_with_szlm(szlm_id: &str) -> (r: String)
    requires
        szlm_id.spec_bytes().len() <= usize::MAX / 4,
    ensures
        r@ == device_code_of(szlm_description(szlm_id@)),
        device_code_text(r@) == Some(szlm_description(szlm_id@)),
        device_code_valid(r@),
        forall|i: int| 0 <= i < r@.len() ==> b64_symbol(#[trigger] r@[i]),
{
    let digest = md5_digest(szlm_id.as_bytes());
    let mut raw = String::new();
    push_str(&mut raw, szlm_id);
    push_str(&mut raw, "; ; ; ");
    push_mac_text(&mut raw, &digest);
    push_str(&mut raw, "; Xiaomi; Xiaomi; 23113RKC6C; UKQ1.230804.001; null");
    proof {
        lemma_szlm_description(szlm_id@, digest@, raw@);
    }
    encode_device_code(raw.as_str())
}

/// Appends the MAC address derived from a digest.
fn push_mac_text(out: &mut String, digest: &Vec<u8>)
    requires
        digest@.len() >= 6,
    ensures
        final(out)@ == old(out)@ + mac_text(mac_octets(digest@)),
{
    let ghost m = mac_octets(digest@);
    let ghost start = out@;
    let m0: u8 = (digest[0] & 0xfe) | 0x02;
    assert(m[0] == m0);
    push_hex_min2(out, m0 as u32);
    let ghost a0 = out@;
    push_mac_octet(out, digest[1]);
    let ghost a1 = out@;
    push_mac_octet(out, digest[2]);
    let ghost a2 = out@;
    push_mac_octet(out, digest[3]);
    let ghost a3 = out@;
    push_mac_octet(out, digest[4]);
    let ghost a4 = out@;
    push_mac_octet(out, digest[5]);
    proof {
        lemma_mac_concat(
            start,
            hex_min2(m[0] as nat),
            hex_min2(m[1] as nat),
            hex_min2(m[2] as nat),
            hex_min2(m[3] as nat),
            hex_min2(m[4] as nat),
            hex_min2(m[5] as nat),
        );
    }
}

proof fn lemma_mac_concat(
    start: Seq<char>,
    h0: Seq<char>,
    h1: Seq<char>,
    h2: Seq<char>,
    h3: Seq<char>,
    h4: Seq<char>,
    h5: Seq<char>,
)
    ensures
        start + h0 + seq![':'] + h1 + seq![':'] + h2 + seq![':'] + h3 + seq![':'] + h4 + seq![':']
            + h5 == start + (h0 + seq![':'] + h1 + seq![':'] + h2 + seq![':'] + h3 + seq![':'] + h4
            + seq![':'] + h5),
{
    assert(start + h0 + seq![':'] + h1 + seq![':'] + h2 + seq![':'] + h3 + seq![':'] + h4 + seq![
        ':',
    ] + h5 =~= start + (h0 + seq![':'] + h1 + seq![':'] + h2 + seq![':'] + h3 + seq![':'] + h4
        + seq![':'] + h5));
}

/// Appends `:` and the two hexadecimal digits of an octet.
fn push_mac_octet(out: &mut String, b: u8)
    ensures
        final(out)@ == old(out)@ + seq![':'] + hex_min2(b as nat),
{
    push_char(out, ':');
    push_hex_min2(out, b as u32);
}

proof fn lemma_szlm_description(id: Seq<char>, digest: Seq<u8>, raw: Seq<char>)
    requires
        digest == md5_of(vstd::utf8::encode_utf8(id)),
        digest.len() == 16,
        raw == id + "; ; ; "@ + mac_text(mac_octets(digest)) + "; Xiaomi; Xiaomi; 23113RKC6C; UKQ1.230804.001; null"@,
        vstd::utf8::encode_utf8(id).len() <= usize::MAX / 4,
    ensures
        raw == szlm_description(id),
        vstd::utf8::encode_utf8(raw).len() <= usize::MAX / 2,
        raw.len() > 0,
        contains(raw, "; "@),
{
    reveal_strlit("; ; ; ");
    reveal_strlit("; Xiaomi; Xiaomi; 23113RKC6C; UKQ1.230804.001; null");
    reveal_strlit("; ");
    let mac = mac_text(mac_octets(digest));
    lemma_mac_text(mac_octets(digest));
    assert(is_ascii_seq(szlm_head()));
    assert(is_ascii_seq(szlm_tail()));
    lemma_ascii_concat(szlm_head(), mac);
    lemma_ascii_concat(szlm_head() + mac, szlm_tail());
    let rest = szlm_head() + mac + szlm_tail();
    lemma_ascii_len(rest);
    assert(raw =~= id + rest);
    lemma_encode_utf8_concat(id, rest);
    assert(rest.len() == 74);
    let k = id.len() as int;
    assert(raw.subrange(k, k + 2) =~= "; "@);
    assert(crate::text::occurs_at(raw, "; "@, k));
}

/// The device code derived from a random seed, in the account format.
pub fn device_code_for_seed(seed: u64) -> (r: String)
    ensures
        r@ == device_code_of(account_description(crate::text::dec(seed as nat))),
        device_code_valid(r@),
        r@.len() == 92,
{
    let id = crate::text::u64_to_string(seed);
    generate_device_code_for_id(id.as_str())
}

// ---------------------------------------------------------------------------
// Checking and decoding
// ---------------------------------------------------------------------------

/// `utf8_len(cs) % 4`.
fn utf8_len_mod4(cs: &Vec<char>) -> (r: usize)
    ensures
        r == utf8_len(cs@) % 4,
{
    let mut acc: usize = 0;
    let mut i: usize = 0;
    assert(cs@.take(0) =~= Seq::<char>::empty());
    while i < cs.len()
        invariant
            i <= cs@.len(),
            acc == utf8_len(cs@.take(i as int)) % 4,
        decreases cs@.len() - i,
    {
        let w = crate::text::char_utf8_len(cs[i]);
        proof {
            let a = cs@.take(i as int);
            let b = seq![cs@[i as int]];
            lemma_encode_utf8_concat(a, b);
            assert(cs@.take(i + 1) =~= a + b);
            assert(b.drop_first() =~= Seq::<char>::empty());
            assert(vstd::utf8::encode_utf8(b.drop_first()) =~= Seq::<u8>::empty());
            assert(vstd::utf8::encode_utf8(b) =~= vstd::utf8::encode_scalar(cs@[i as int] as u32));
            assert((utf8_len(a) % 4 + w) % 4 == (utf8_len(a) + w) % 4);
        }
        acc = (acc + w) % 4;
        i += 1;
    }
    assert(cs@.take(cs@.len() as int) =~= cs@);
    acc
}

/// The base64 text a device code stands for, as bytes.
fn restored_bytes(code: &str) -> (r: Vec<u8>)
    ensures
        r@ == vstd::utf8::encode_utf8(restored(code@)),
{
    let cs = chars_of(code);
    let n = cs.len();
    let mut rev = String::new();
    let mut i = n;
    assert(cs@.subrange(n as int, n as int).reverse() =~= Seq::<char>::empty());
    while i > 0
        invariant
            i <= n == cs@.len(),
            cs@ == code@,
            rev@ == cs@.subrange(i as int, n as int).reverse(),
        decreases i,
    {
        i -= 1;
        push_char(&mut rev, cs[i]);
        assert(rev@ =~= cs@.subrange(i as int, n as int).reverse());
    }
    assert(cs@.subrange(0, n as int) =~= code@);
    let ghost reversed = rev@;
    assert(reversed =~= code@.reverse());
    let len4 = utf8_len_mod4(&chars_of(rev.as_str()));
    let pad = (4 - len4) % 4;
    let mut k: usize = 0;
    while k < pad
        invariant
            k <= pad,
            pad == pad_to_four(utf8_len(reversed)),
            reversed == code@.reverse(),
            rev@ == reversed + equals_signs(k as nat),
        decreases pad - k,
    {
        push_char(&mut rev, '=');
        k += 1;
        assert(rev@ =~= reversed + equals_signs(k as nat));
    }
    let bytes = rev.as_str().as_bytes();
    let mut out: Vec<u8> = Vec::new();
    let mut j: usize = 0;
    while j < bytes.len()
        invariant
            j <= bytes@.len(),
            out@ == bytes@.take(j as int),
        decreases bytes@.len() - j,
    {
        out.push(bytes[j]);
        j += 1;
        assert(out@ =~= bytes@.take(j as int));
    }
    assert(bytes@.take(bytes@.len() as int) =~= bytes@);
    out
}

/// Whether a device code has the official shape: it decodes, as reversed
/// base64, to UTF-8 text with fields separated by `"; "`.
pub fn is_valid_device_code(code: &str) -> (r: bool)
    ensures
        r == device_code_valid(code@),
{
    if code.is_empty() {
        return false;
    }
    match decode_device_code(code) {
        Some(text) => chars_contain(&chars_of(text.as_str()), "; "),
        None => false,
    }
}

/// The description a device code decodes to, when its base64 is valid and
/// the bytes are UTF-8.
pub fn decode_device_code(code: &str) -> (r: Option<String>)
    ensures
        r matches Some(t) ==> device_code_text(code@) == Some(t@),
        r is None ==> device_code_text(code@) is None,
{
    let bytes = restored_bytes(code);
    match b64_decode(bytes.as_slice()) {
        Ok(decoded) => utf8_text(decoded.as_slice()),
        Err(_) => None,
    }
}

// ---------------------------------------------------------------------------
// Device profile and the choice of code
// ---------------------------------------------------------------------------

/// Overrides of the device information sent with every request, set from
/// the settings page. `None` keeps the client default.
#[derive(Clone, Debug, Default)]
pub struct DeviceProfile {
    pub user_agent: Option<String>,
    pub sdk_int: Option<String>,
    pub locale: Option<String>,
    pub app_version: Option<String>,
    pub app_code: Option<String>,
    pub api_version: Option<String>,
    pub dark_mode: Option<String>,
    /// The Digital Alliance ID; when set it becomes the first field of the
    /// device code.
    pub szlm_id: Option<String>,
}

/// Characters a Digital Alliance ID keeps: visible ASCII other than `;`.
pub open spec fn szlm_keeps(c: char) -> bool {
    '!' <= c && c <= '~' && c != ';'
}

/// The first `cap` kept characters of `s`.
pub open spec fn kept_prefix(s: Seq<char>, cap: nat) -> Seq<char>
    decreases s.len(),
{
    if s.len() == 0 || cap == 0 {
        Seq::empty()
    } else if szlm_keeps(s[0]) {
        seq![s[0]] + kept_prefix(s.drop_first(), (cap - 1) as nat)
    } else {
        kept_prefix(s.drop_first(), cap)
    }
}

/// The Digital Alliance ID a setting holds: trimmed, without `;` or
/// non-visible characters, at most 64 characters, and not empty.
pub open spec fn szlm_id_of(raw: Seq<char>) -> Option<Seq<char>> {
    let cleaned = kept_prefix(trim(raw), 64);
    if cleaned.len() == 0 {
        None
    } else {
        Some(cleaned)
    }
}

pub open spec fn profile_szlm_id(profile: DeviceProfile) -> Option<Seq<char>> {
    match profile.szlm_id {
        Some(raw) => szlm_id_of(raw@),
        None => None,
    }
}

proof fn lemma_kept_prefix(s: Seq<char>, cap: nat)
    ensures
        kept_prefix(s, cap).len() <= cap,
        is_ascii_seq(kept_prefix(s, cap)),
        forall|i: int| 0 <= i < kept_prefix(s, cap).len() ==> szlm_keeps(#[trigger] kept_prefix(s, cap)[i]),
    decreases s.len(),
{
    if s.len() == 0 || cap == 0 {
    } else if szlm_keeps(s[0]) {
        lemma_kept_prefix(s.drop_first(), (cap - 1) as nat);
        let t = kept_prefix(s.drop_first(), (cap - 1) as nat);
        assert forall|i: int| 0 <= i < kept_prefix(s, cap).len() implies szlm_keeps(#[trigger] kept_prefix(s, cap)[i]) by {
            if i > 0 {
                assert(kept_prefix(s, cap)[i] == t[i - 1]);
            }
        }
    } else {
        lemma_kept_prefix(s.drop_first(), cap);
    }
}

impl DeviceProfile {
    /// The Digital Alliance ID in effect: the setting trimmed, stripped of
    /// `;` and of characters that cannot stand in a header, cut to 64
    /// characters; `None` when nothing is left.
    pub fn custom_szlm_id(&self) -> (r: Option<String>)
        ensures
            match r {
                Some(id) => profile_szlm_id(*self) == Some(id@),
                None => profile_szlm_id(*self) is None,
            },
            r matches Some(id) ==> id@.len() <= 64 && utf8_len(id@) <= 64,
    {
        let raw = match &self.szlm_id {
            Some(raw) => raw,
            None => return None,
        };
        let t = crate::text::trimmed_str(raw.as_str());
        let mut out = String::new();
        let mut count: usize = 0;
        let mut i: usize = 0;
        assert(t@.skip(0) =~= t@);
        while i < t.len()
            invariant
                i <= t@.len(),
                count == out@.len() <= 64,
                kept_prefix(t@, 64) == out@ + kept_prefix(t@.skip(i as int), (64 - count) as nat),
            decreases t@.len() - i,
        {
            let c = t[i];
            proof {
                let rest = t@.skip(i as int);
                assert(rest[0] == c);
                assert(rest.drop_first() =~= t@.skip(i + 1));
            }
            if count < 64 && '!' <= c && c <= '~' && c != ';' {
                push_char(&mut out, c);
                count += 1;
                assert(kept_prefix(t@, 64) =~= out@ + kept_prefix(t@.skip(i + 1), (64 - count) as nat));
            }
            i += 1;
        }
        assert(t@.skip(i as int) =~= Seq::<char>::empty());
        assert(out@ =~= kept_prefix(t@, 64));
        proof {
            lemma_kept_prefix(t@, 64);
            lemma_ascii_len(out@);
        }
        if count == 0 {
            None
        } else {
            Some(out)
        }
    }
}

/// Where the device code in effect comes from, and the code itself.
pub enum DeviceCodeChoice {
    /// Derived from the Digital Alliance ID.
    Szlm { code: String },
    /// The random code the user rolled.
    Random { code: String },
    /// The code bound to the logged-in account.
    Account { uid: String, code: String },
    /// The guest code of this machine (kept in storage).
    Guest,
}

impl DeviceCodeChoice {
    /// The label the settings page shows for the source.
    pub fn source(&self) -> (r: &'static str)
        ensures
            r@ == match *self {
                DeviceCodeChoice::Szlm { .. } => "szlm"@,
                DeviceCodeChoice::Random { .. } => "random"@,
                DeviceCodeChoice::Account { .. } => "account"@,
                DeviceCodeChoice::Guest => "guest"@,
            },
    {
        match self {
            DeviceCodeChoice::Szlm { .. } => "szlm",
            DeviceCodeChoice::Random { .. } => "random",
            DeviceCodeChoice::Account { .. } => "account",
            DeviceCodeChoice::Guest => "guest",
        }
    }
}

/// The device code to use, by priority: a Digital Alliance ID, then a
/// valid random override, then the logged-in account (the first non-empty
/// `uid` of the cookie), then the guest code.
pub fn choose_device_code(
    profile: &DeviceProfile,
    random_override: Option<&str>,
    cookie: Option<&str>,
) -> (r: DeviceCodeChoice)
    ensures
        match profile_szlm_id(*profile) {
            Some(id) => r matches DeviceCodeChoice::Szlm { code } && code@ == device_code_of(
                szlm_description(id),
            ),
            None => match random_override {
                Some(c) if device_code_valid(c@) => r matches DeviceCodeChoice::Random { code }
                    && code@ == c@,
                _ => match cookie {
                    Some(ck) => match crate::cookie::first_uid(crate::text::split(ck@, ';')) {
                        Some(uid) => r matches DeviceCodeChoice::Account { uid: u, code } && u@
                            == uid && code@ == device_code_of(account_description(uid)),
                        None => r is Guest,
                    },
                    None => r is Guest,
                },
            },
        },
{
    if let Some(id) = profile.custom_szlm_id() {
        return DeviceCodeChoice::Szlm { code: generate_device_code_with_szlm(id.as_str()) };
    }
    if let Some(c) = random_override {
        if is_valid_device_code(c) {
            return DeviceCodeChoice::Random { code: c.to_string() };
        }
    }
    if let Some(ck) = cookie {
        if let Some(uid) = crate::cookie::cookie_uid(ck) {
            let code = generate_device_code_for_id(uid.as_str());
            return DeviceCodeChoice::Account { uid, code };
        }
    }
    DeviceCodeChoice::Guest
}

/// A stored code is used only when it has the official shape.
pub fn usable_stored_code(stored: Option<&str>) -> (r: Option<String>)
    ensures
        match stored {
            Some(c) => if device_code_valid(c@) {
                r matches Some(s) && s@ == c@
            } else {
                r is None
            },
            None => r is None,
        },
{
    match stored {
        Some(c) => if is_valid_device_code(c) {
            Some(c.to_string())
        } else {
            None
        },
        None => None,
    }
}

} // verus!
