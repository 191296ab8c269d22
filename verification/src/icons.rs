//! Icon handling: data-URL encoding, image type sniffing and the names of
//! cached icon files.

use vstd::prelude::*;
use crate::text::{
    char_is_alphanumeric, chars_of, concat, contains_char, contains_str, ends_with, filter_chars,
    has_substring, is_alphanumeric, is_suffix, seqs_of, slice_chars, split, split_chars, string_of,
    trim, trim_chars, is_subsequence, lemma_filter_chars,
};
use vstd::utf8::encode_utf8;
use crate::digest::{hex_encode, hex_lower, lemma_hex_lower_len, sha256, sha256_digest};
use vstd::string::StringSliceAdditionalSpecFns;

verus! {

/// Character `i` (0..64) of the standard Base64 alphabet.
pub open spec fn b64_char(i: int) -> char {
    if i < 26 {
        (65 + i) as char
    } else if i < 52 {
        (97 + i - 26) as char
    } else if i < 62 {
        (48 + i - 52) as char
    } else if i == 62 {
        '+'
    } else {
        '/'
    }
}

/// Base64 of one group of one to three bytes, padded with `=`.
pub open spec fn b64_group(g: Seq<u8>) -> Seq<char> {
    let b0 = g[0] as int;
    let b1 = if g.len() > 1 { g[1] as int } else { 0 };
    let b2 = if g.len() > 2 { g[2] as int } else { 0 };
    seq![
        b64_char(b0 / 4),
        b64_char((b0 % 4) * 16 + b1 / 16),
        if g.len() > 1 { b64_char((b1 % 16) * 4 + b2 / 64) } else { '=' },
        if g.len() > 2 { b64_char(b2 % 64) } else { '=' },
    ]
}

/// Standard Base64 (RFC 4648) with padding.
pub open spec fn base64(d: Seq<u8>) -> Seq<char>
    decreases d.len(),
{
    if d.len() == 0 {
        Seq::empty()
    } else {
        let k = (d.len() - 1) / 3 * 3;
        base64(d.subrange(0, k)) + b64_group(d.subrange(k, d.len() as int))
    }
}

fn b64_char_exec(i: u8) -> (c: char)
    requires
        i < 64,
    ensures
        c == b64_char(i as int),
{
    if i < 26 {
        (65u8 + i) as char
    } else if i < 52 {
        (97u8 + i - 26) as char
    } else if i < 62 {
        (48u8 + i - 52) as char
    } else if i == 62 {
        '+'
    } else {
        '/'
    }
}

/// Encodes bytes as standard Base64 with `=` padding.
pub fn base64_encode(data: &[u8]) -> (r: String)
    ensures
        r@ == base64(data@),
{
    let mut out: Vec<char> = Vec::new();
    let mut i: usize = 0;
    assert(data@.subrange(0, 0) =~= Seq::<u8>::empty());
    while i < data.len()
        invariant
            i <= data.len(),
            i % 3 == 0 || i == data.len(),
            out@ == base64(data@.subrange(0, i as int)),
        decreases data.len() - i,
    {
        let n: usize = if data.len() - i >= 3 { 3 } else { data.len() - i };
        let b0 = data[i];
        let b1: u8 = if n > 1 { data[i + 1] } else { 0 };
        let b2: u8 = if n > 2 { data[i + 2] } else { 0 };
        let x0: u8 = b0 >> 2;
        let x1: u8 = ((b0 & 0x03) << 4) | (b1 >> 4);
        let x2: u8 = ((b1 & 0x0f) << 2) | (b2 >> 6);
        let x3: u8 = b2 & 0x3f;
        proof {
            assert(b0 >> 2 == b0 / 4) by (bit_vector);
            assert(((b0 & 0x03) << 4) | (b1 >> 4) == (b0 % 4) * 16 + b1 / 16) by (bit_vector);
            assert(((b1 & 0x0f) << 2) | (b2 >> 6) == (b1 % 16) * 4 + b2 / 64) by (bit_vector);
            assert(b2 & 0x3f == b2 % 64) by (bit_vector);
        }
        let c0 = b64_char_exec(x0);
        let c1 = b64_char_exec(x1);
        let c2 = if n > 1 { b64_char_exec(x2) } else { '=' };
        let c3 = if n > 2 { b64_char_exec(x3) } else { '=' };
        proof {
            let m = i + n;
            let pre = data@.subrange(0, m as int);
            assert((m - 1) / 3 * 3 == i) by (nonlinear_arith)
                requires
                    m == i + n,
                    1 <= n <= 3,
                    i % 3 == 0,
            ;
            assert(pre.subrange(0, i as int) =~= data@.subrange(0, i as int));
            let g = pre.subrange(i as int, m as int);
            assert(g =~= data@.subrange(i as int, m as int));
            assert(g[0] == b0);
            if n > 1 {
                assert(g[1] == b1);
            }
            if n > 2 {
                assert(g[2] == b2);
            }
            assert(b64_group(g) =~= seq![c0, c1, c2, c3]);
        }
        out.push(c0);
        out.push(c1);
        out.push(c2);
        out.push(c3);
        i = i + n;
    }
    assert(data@.subrange(0, data@.len() as int) =~= data@);
    string_of(&out)
}


/// Position of a character in the standard Base64 alphabet.
pub open spec fn b64_index(c: char) -> int {
    if 'A' <= c && c <= 'Z' {
        c as int - 65
    } else if 'a' <= c && c <= 'z' {
        c as int - 97 + 26
    } else if '0' <= c && c <= '9' {
        c as int - 48 + 52
    } else if c == '+' {
        62
    } else {
        63
    }
}

/// The bytes of one group of four Base64 characters; `=` marks padding.
pub open spec fn b64_ungroup(q: Seq<char>) -> Seq<u8> {
    let v0 = b64_index(q[0]);
    let v1 = b64_index(q[1]);
    let v2 = if q[2] == '=' { 0 } else { b64_index(q[2]) };
    let v3 = if q[3] == '=' { 0 } else { b64_index(q[3]) };
    let x0 = (v0 * 4 + v1 / 16) as u8;
    let x1 = ((v1 % 16) * 16 + v2 / 4) as u8;
    let x2 = ((v2 % 4) * 64 + v3) as u8;
    if q[2] == '=' {
        seq![x0]
    } else if q[3] == '=' {
        seq![x0, x1]
    } else {
        seq![x0, x1, x2]
    }
}

/// Standard Base64 decoding of padded text, four characters at a time.
pub open spec fn base64_decoded(s: Seq<char>) -> Seq<u8>
    decreases s.len(),
{
    if s.len() < 4 {
        Seq::empty()
    } else {
        base64_decoded(s.subrange(0, s.len() - 4)) + b64_ungroup(s.subrange(s.len() - 4, s.len() as int))
    }
}

proof fn lemma_b64_char(i: int)
    requires
        0 <= i < 64,
    ensures
        b64_index(b64_char(i)) == i,
        b64_char(i) != '=',
{
    if i < 26 {
        assert((65 + i) as char as int == 65 + i);
    } else if i < 52 {
        assert((97 + i - 26) as char as int == 97 + i - 26);
    } else if i < 62 {
        assert((48 + i - 52) as char as int == 48 + i - 52);
    }
}

proof fn lemma_b64_group(g: Seq<u8>)
    requires
        1 <= g.len() <= 3,
    ensures
        b64_ungroup(b64_group(g)) == g,
{
    let b0 = g[0] as int;
    let b1 = if g.len() > 1 { g[1] as int } else { 0 };
    let b2 = if g.len() > 2 { g[2] as int } else { 0 };
    let v0 = b0 / 4;
    let v1 = (b0 % 4) * 16 + b1 / 16;
    let v2 = (b1 % 16) * 4 + b2 / 64;
    let v3 = b2 % 64;
    assert(0 <= v0 < 64 && 0 <= v1 < 64 && 0 <= v2 < 64 && 0 <= v3 < 64) by (nonlinear_arith)
        requires
            0 <= b0 < 256,
            0 <= b1 < 256,
            0 <= b2 < 256,
            v0 == b0 / 4,
            v1 == (b0 % 4) * 16 + b1 / 16,
            v2 == (b1 % 16) * 4 + b2 / 64,
            v3 == b2 % 64,
    ;
    lemma_b64_char(v0);
    lemma_b64_char(v1);
    lemma_b64_char(v2);
    lemma_b64_char(v3);
    assert(v0 * 4 + v1 / 16 == b0 && (v1 % 16) * 16 + v2 / 4 == b1 && (v2 % 4) * 64 + v3 == b2) by (nonlinear_arith)
        requires
            0 <= b0 < 256,
            0 <= b1 < 256,
            0 <= b2 < 256,
            v0 == b0 / 4,
            v1 == (b0 % 4) * 16 + b1 / 16,
            v2 == (b1 % 16) * 4 + b2 / 64,
            v3 == b2 % 64,
    ;
    let q = b64_group(g);
    assert(q[0] == b64_char(v0) && q[1] == b64_char(v1));
    if g.len() == 1 {
        assert(q[2] == '=');
        assert(b64_ungroup(q) =~= g);
    } else if g.len() == 2 {
        assert(q[2] == b64_char(v2) && q[3] == '=');
        assert(b64_ungroup(q) =~= g);
    } else {
        assert(q[2] == b64_char(v2) && q[3] == b64_char(v3));
        assert(b64_ungroup(q) =~= g);
    }
}

/// Decoding the Base64 text of some bytes gives the bytes back.
pub proof fn law_base64_round_trip(d: Seq<u8>)
    ensures
        base64_decoded(base64(d)) == d,
    decreases d.len(),
{
    if d.len() > 0 {
        let k = (d.len() - 1) / 3 * 3;
        assert(0 <= k < d.len() && d.len() - k <= 3 && k % 3 == 0) by (nonlinear_arith)
            requires
                k == (d.len() - 1) / 3 * 3,
                d.len() > 0,
        ;
        let pre = base64(d.subrange(0, k));
        let grp = b64_group(d.subrange(k, d.len() as int));
        law_base64_round_trip(d.subrange(0, k));
        lemma_b64_group(d.subrange(k, d.len() as int));
        let e = base64(d);
        assert(e == pre + grp);
        assert(grp.len() == 4);
        assert(e.subrange(0, e.len() - 4) =~= pre);
        assert(e.subrange(e.len() - 4, e.len() as int) =~= grp);
        assert(d.subrange(0, k) + d.subrange(k, d.len() as int) =~= d);
    }
}

/// Base64 output is four characters for every started group of three bytes.
pub proof fn law_base64_length(d: Seq<u8>)
    ensures
        base64(d).len() == 4 * ((d.len() + 2) / 3),
    decreases d.len(),
{
    if d.len() > 0 {
        let k = (d.len() - 1) / 3 * 3;
        assert(0 <= k < d.len() && d.len() - k <= 3 && k % 3 == 0) by (nonlinear_arith)
            requires
                k == (d.len() - 1) / 3 * 3,
                d.len() > 0,
        ;
        law_base64_length(d.subrange(0, k));
        assert(4 * ((k + 2) / 3) + 4 == 4 * ((d.len() + 2) / 3)) by (nonlinear_arith)
            requires
                k % 3 == 0,
                0 <= k < d.len(),
                d.len() - k <= 3,
        ;
    }
}

pub open spec fn starts_bytes(b: Seq<u8>, p: Seq<u8>) -> bool {
    p.len() <= b.len() && b.subrange(0, p.len() as int) == p
}

pub open spec fn is_ascii_ws_byte(x: u8) -> bool {
    x == 0x20 || x == 0x09 || x == 0x0a || x == 0x0c || x == 0x0d
}

/// `b` without its leading ASCII white space; unchanged when it is all white space.
pub open spec fn skip_ascii_ws(b: Seq<u8>) -> Seq<u8> {
    if exists|i: int| 0 <= i < b.len() && !is_ascii_ws_byte(b[i]) {
        let i = choose|i: int| 0 <= i < b.len() && !is_ascii_ws_byte(b[i]) && forall|j: int| 0 <= j < i ==> is_ascii_ws_byte(b[j]);
        b.subrange(i, b.len() as int)
    } else {
        b
    }
}

/// Media type of an image, sniffed from its first bytes; PNG when nothing matches.
pub open spec fn image_mime(b: Seq<u8>) -> Seq<char> {
    if starts_bytes(b, seq![0x89u8, 0x50u8, 0x4eu8, 0x47u8, 0x0du8, 0x0au8, 0x1au8, 0x0au8]) {
        "image/png"@
    } else if starts_bytes(b, seq![0x47u8, 0x49u8, 0x46u8, 0x38u8, 0x37u8, 0x61u8]) || starts_bytes(
        b,
        seq![0x47u8, 0x49u8, 0x46u8, 0x38u8, 0x39u8, 0x61u8],
    ) {
        "image/gif"@
    } else if starts_bytes(b, seq![0xffu8, 0xd8u8, 0xffu8]) {
        "image/jpeg"@
    } else if starts_bytes(b, seq![0x52u8, 0x49u8, 0x46u8, 0x46u8]) && b.len() > 12 && b.subrange(8, 12) == seq![
        0x57u8,
        0x45u8,
        0x42u8,
        0x50u8,
    ] {
        "image/webp"@
    } else if starts_bytes(b, seq![0x00u8, 0x00u8, 0x01u8, 0x00u8]) {
        "image/x-icon"@
    } else {
        let t = if starts_bytes(b, seq![0xefu8, 0xbbu8, 0xbfu8]) {
            b.subrange(3, b.len() as int)
        } else {
            b
        };
        let u = skip_ascii_ws(t);
        if starts_bytes(u, seq![0x3cu8, 0x3fu8, 0x78u8, 0x6du8, 0x6cu8]) || starts_bytes(
            u,
            seq![0x3cu8, 0x73u8, 0x76u8, 0x67u8],
        ) {
            "image/svg+xml"@
        } else {
            "image/png"@
        }
    }
}

fn starts_bytes_exec(b: &[u8], p: &[u8]) -> (r: bool)
    ensures
        r == starts_bytes(b@, p@),
{
    if p.len() > b.len() {
        return false;
    }
    let mut i: usize = 0;
    while i < p.len()
        invariant
            p.len() <= b.len(),
            i <= p.len(),
            forall|j: int| 0 <= j < i ==> b@[j] == p@[j],
        decreases p.len() - i,
    {
        if b[i] != p[i] {
            assert(b@.subrange(0, p@.len() as int)[i as int] != p@[i as int]);
            return false;
        }
        i = i + 1;
    }
    assert(b@.subrange(0, p@.len() as int) =~= p@);
    true
}

fn bytes_from(b: &[u8], from: usize) -> (r: Vec<u8>)
    requires
        from <= b.len(),
    ensures
        r@ == b@.subrange(from as int, b@.len() as int),
{
    let mut r: Vec<u8> = Vec::new();
    let mut i: usize = from;
    while i < b.len()
        invariant
            from <= i <= b.len(),
            r@ == b@.subrange(from as int, i as int),
        decreases b.len() - i,
    {
        r.push(b[i]);
        i = i + 1;
        assert(r@ =~= b@.subrange(from as int, i as int));
    }
    r
}

/// Guesses the media type of image bytes from their signature.
pub fn detect_image_mime(bytes: &[u8]) -> (r: &'static str)
    ensures
        r@ == image_mime(bytes@),
{
    if starts_bytes_exec(bytes, &[0x89, 0x50, 0x4e, 0x47, 0x0d, 0x0a, 0x1a, 0x0a]) {
        "image/png"
    } else if starts_bytes_exec(bytes, &[0x47, 0x49, 0x46, 0x38, 0x37, 0x61]) || starts_bytes_exec(
        bytes,
        &[0x47, 0x49, 0x46, 0x38, 0x39, 0x61],
    ) {
        "image/gif"
    } else if starts_bytes_exec(bytes, &[0xff, 0xd8, 0xff]) {
        "image/jpeg"
    } else if starts_bytes_exec(bytes, &[0x52, 0x49, 0x46, 0x46]) && bytes.len() > 12 && bytes[8] == 0x57
        && bytes[9] == 0x45 && bytes[10] == 0x42 && bytes[11] == 0x50 {
        assert(bytes@.subrange(8, 12) =~= seq![0x57u8, 0x45u8, 0x42u8, 0x50u8]);
        "image/webp"
    } else if starts_bytes_exec(bytes, &[0x00, 0x00, 0x01, 0x00]) {
        "image/x-icon"
    } else {
        proof {
            if starts_bytes(bytes@, seq![0x52u8, 0x49u8, 0x46u8, 0x46u8]) && bytes@.len() > 12 {
                assert(bytes@.subrange(8, 12)[0] == bytes@[8]);
                assert(bytes@.subrange(8, 12)[1] == bytes@[9]);
                assert(bytes@.subrange(8, 12)[2] == bytes@[10]);
                assert(bytes@.subrange(8, 12)[3] == bytes@[11]);
            }
        }
        let t = if starts_bytes_exec(bytes, &[0xef, 0xbb, 0xbf]) {
            bytes_from(bytes, 3)
        } else {
            bytes_from(bytes, 0)
        };
        assert(bytes@.subrange(0, bytes@.len() as int) =~= bytes@);
        let mut i: usize = 0;
        while i < t.len() && (t[i] == 0x20 || t[i] == 0x09 || t[i] == 0x0a || t[i] == 0x0c || t[i] == 0x0d)
            invariant
                i <= t.len(),
                forall|j: int| 0 <= j < i ==> is_ascii_ws_byte(t@[j]),
            decreases t.len() - i,
        {
            i = i + 1;
        }
        let u = if i < t.len() {
            proof {
                let w = choose|w: int| 0 <= w < t@.len() && !is_ascii_ws_byte(t@[w]) && forall|j: int| 0 <= j < w ==> is_ascii_ws_byte(t@[j]);
                assert(0 <= i < t@.len() && !is_ascii_ws_byte(t@[i as int]) && forall|j: int| 0 <= j < i ==> is_ascii_ws_byte(t@[j]));
                if w < i {
                    assert(is_ascii_ws_byte(t@[w]));
                } else if w > i {
                    assert(is_ascii_ws_byte(t@[i as int]));
                }
            }
            bytes_from(&t, i)
        } else {
            assert(t@.subrange(0, t@.len() as int) =~= t@);
            bytes_from(&t, 0)
        };
        if starts_bytes_exec(&u, &[0x3c, 0x3f, 0x78, 0x6d, 0x6c]) || starts_bytes_exec(&u, &[0x3c, 0x73, 0x76, 0x67]) {
            "image/svg+xml"
        } else {
            "image/png"
        }
    }
}

pub open spec fn keeps_in_icon_name(c: char) -> bool {
    is_alphanumeric(c) || c == '-' || c == '_'
}

pub open spec fn icon_segment(s: Seq<char>) -> Seq<char> {
    filter_chars(s, |c: char| keeps_in_icon_name(c))
}

/// Keeps only alphanumeric characters, `-` and `_`, so that the result is safe
/// as part of a file name.
pub fn sanitize_icon_segment(s: &str) -> (r: String)
    ensures
        r@ == icon_segment(s@),
{
    let v = chars_of(s);
    let mut r: Vec<char> = Vec::new();
    let mut i: usize = 0;
    while i < v.len()
        invariant
            i <= v.len(),
            v@ == s@,
            r@ == icon_segment(v@.subrange(0, i as int)),
        decreases v.len() - i,
    {
        assert(v@.subrange(0, i + 1).drop_last() =~= v@.subrange(0, i as int));
        let c = v[i];
        if char_is_alphanumeric(c) || c == '-' || c == '_' {
            r.push(c);
        }
        i = i + 1;
    }
    assert(v@.subrange(0, i as int) =~= v@);
    string_of(&r)
}

/// A cleaned segment is the segment with characters dropped, holds only
/// allowed characters, and cleaning it again changes nothing.
pub proof fn law_icon_segment_clean(s: Seq<char>)
    ensures
        icon_segment(icon_segment(s)) == icon_segment(s),
        is_subsequence(icon_segment(s), s),
        forall|i: int| 0 <= i < icon_segment(s).len() ==> keeps_in_icon_name(#[trigger] icon_segment(s)[i]),
{
    lemma_filter_chars(s, |c: char| keeps_in_icon_name(c));
}

/// An address that serves a GitHub avatar or identicon.
pub open spec fn avatar_url(url: Seq<char>) -> bool {
    let u = trim(url);
    (has_substring(u, "github.com/"@) && is_suffix(".png"@, u)) || has_substring(u, "avatars.githubusercontent.com"@)
        || has_substring(u, "identicons.github.com"@)
}

/// Whether `url` points at a GitHub avatar rather than an application's own icon.
pub fn is_avatar_url(url: &str) -> (r: bool)
    ensures
        r == avatar_url(url@),
{
    let u = trim_chars(&chars_of(url));
    (contains_str(&u, &chars_of("github.com/")) && ends_with(&u, &chars_of(".png"))) || contains_str(
        &u,
        &chars_of("avatars.githubusercontent.com"),
    ) || contains_str(&u, &chars_of("identicons.github.com"))
}


/// Name of a cached icon derived from its address: the first 16 hex digits of
/// the SHA-256 of the address, then `.png`.
pub open spec fn hash_file_name(url: Seq<char>) -> Seq<char> {
    hex_lower(sha256_digest(encode_utf8(url))).subrange(0, 16) + ".png"@
}

/// Icon file name derived from the icon's address.
pub fn icon_hash_filename(remote_url: &str) -> (r: String)
    ensures
        r@ == hash_file_name(remote_url@),
{
    let d = sha256(remote_url.as_bytes());
    let h = hex_encode(&d);
    let hv = chars_of(h.as_str());
    proof {
        lemma_hex_lower_len(d@);
    }
    string_of(&concat(&slice_chars(&hv, 0, 16), &chars_of(".png")))
}

pub open spec fn pair_file_name(a: Seq<char>, b: Seq<char>) -> Seq<char> {
    a + "_"@ + b + ".png"@
}

/// File name of a cached icon: `{owner}_{repo}.png` from the repository when
/// both parts survive sanitising, else `{app_id}.png` (an `owner/repo` id
/// giving `{owner}_{repo}.png`), else a name hashed from the address.
pub open spec fn icon_file_name(
    owner: Option<Seq<char>>,
    repo: Option<Seq<char>>,
    app_id: Option<Seq<char>>,
    url: Seq<char>,
) -> Seq<char> {
    if owner is Some && repo is Some {
        let so = icon_segment(owner->0);
        let sr = icon_segment(repo->0);
        if so.len() > 0 && sr.len() > 0 {
            pair_file_name(so, sr)
        } else if app_id is Some {
            icon_segment(app_id->0) + ".png"@
        } else {
            hash_file_name(url)
        }
    } else if app_id is Some {
        let c = trim(app_id->0);
        let parts = split(c, seq!['/']);
        if c.contains('/') && parts.len() == 2 && icon_segment(parts[0]).len() > 0 && icon_segment(parts[1]).len() > 0 {
            pair_file_name(icon_segment(parts[0]), icon_segment(parts[1]))
        } else if icon_segment(c).len() > 0 {
            icon_segment(c) + ".png"@
        } else {
            hash_file_name(url)
        }
    } else {
        hash_file_name(url)
    }
}

pub open spec fn opt_view(o: Option<&str>) -> Option<Seq<char>> {
    match o {
        Some(s) => Some(s@),
        None => None,
    }
}

fn segment_of(v: &[char]) -> (r: Vec<char>)
    ensures
        r@ == icon_segment(v@),
{
    let s = string_of(v);
    let r = sanitize_icon_segment(s.as_str());
    chars_of(r.as_str())
}

fn pair_name(a: &[char], b: &[char]) -> (r: String)
    ensures
        r@ == pair_file_name(a@, b@),
{
    string_of(&concat(&concat(&concat(a, &chars_of("_")), b), &chars_of(".png")))
}

fn single_name(a: &[char]) -> (r: String)
    ensures
        r@ == a@ + ".png"@,
{
    string_of(&concat(a, &chars_of(".png")))
}

/// File name under which an icon is cached.
pub fn icon_cache_file_name(owner: Option<&str>, repo: Option<&str>, app_id: Option<&str>, remote_url: &str) -> (r: String)
    ensures
        r@ == icon_file_name(opt_view(owner), opt_view(repo), opt_view(app_id), remote_url@),
{
    match (owner, repo) {
        (Some(o), Some(rp)) => {
            let so = segment_of(&chars_of(o));
            let sr = segment_of(&chars_of(rp));
            if so.len() > 0 && sr.len() > 0 {
                pair_name(&so, &sr)
            } else {
                match app_id {
                    Some(id) => single_name(&segment_of(&chars_of(id))),
                    None => icon_hash_filename(remote_url),
                }
            }
        },
        _ => {
            match app_id {
                Some(id) => {
                    let c = trim_chars(&chars_of(id));
                    if contains_char(&c, '/') {
                        let seps = vec!['/'];
                        assert(seps@ =~= seq!['/']);
                        let parts = split_chars(&c, &seps);
                        if parts.len() == 2 {
                            assert(seqs_of(parts@)[0] == parts@[0]@);
                            assert(seqs_of(parts@)[1] == parts@[1]@);
                            let so = segment_of(&parts[0]);
                            let sr = segment_of(&parts[1]);
                            if so.len() > 0 && sr.len() > 0 {
                                return pair_name(&so, &sr);
                            }
                        }
                    }
                    let sid = segment_of(&c);
                    if sid.len() > 0 {
                        single_name(&sid)
                    } else {
                        icon_hash_filename(remote_url)
                    }
                },
                None => icon_hash_filename(remote_url),
            }
        },
    }
}

/// `dir` joined with `name` by a `/` (none added after a trailing `/`).
pub open spec fn join_path(dir: Seq<char>, name: Seq<char>) -> Seq<char> {
    if dir.len() == 0 {
        name
    } else if dir.last() == '/' {
        dir + name
    } else {
        dir + "/"@ + name
    }
}

fn join_path_chars(dir: &[char], name: &[char]) -> (r: Vec<char>)
    ensures
        r@ == join_path(dir@, name@),
{
    if dir.len() == 0 {
        slice_chars(name, 0, name.len())
    } else if dir[dir.len() - 1] == '/' {
        concat(dir, name)
    } else {
        concat(&concat(dir, &chars_of("/")), name)
    }
}

/// Path of a cached icon: `{app_data_dir}/icons/{file name}`.
pub fn get_icon_cache_path(
    app_data_dir: &str,
    owner: Option<&str>,
    repo: Option<&str>,
    app_id: Option<&str>,
    remote_url: &str,
) -> (r: String)
    ensures
        r@ == join_path(
            join_path(app_data_dir@, "icons"@),
            icon_file_name(opt_view(owner), opt_view(repo), opt_view(app_id), remote_url@),
        ),
{
    let name = icon_cache_file_name(owner, repo, app_id, remote_url);
    let dir = join_path_chars(&chars_of(app_data_dir), &chars_of("icons"));
    string_of(&join_path_chars(&dir, &chars_of(name.as_str())))
}

/// An image as a `data:` address: its type, then its bytes in Base64.
pub fn image_data_url(bytes: &[u8]) -> (r: String)
    ensures
        r@ == "data:"@ + image_mime(bytes@) + ";base64,"@ + base64(bytes@),
{
    let mime = detect_image_mime(bytes);
    let b64 = base64_encode(bytes);
    string_of(
        &concat(&concat(&concat(&chars_of("data:"), &chars_of(mime)), &chars_of(";base64,")), &chars_of(b64.as_str())),
    )
}

/// What an icon request asks for.
#[derive(Debug, PartialEq, Eq)]
pub enum IconRequest {
    /// Nothing: the error to return.
    Empty(String),
    /// An image given inline as a `data:` address, returned as it is.
    Inline(String),
    /// An image to fetch or take from the cache, by its trimmed address.
    Remote(String),
}

pub enum IconRequestView {
    Empty(Seq<char>),
    Inline(Seq<char>),
    Remote(Seq<char>),
}

impl View for IconRequest {
    type V = IconRequestView;

    open spec fn view(&self) -> IconRequestView {
        match self {
            IconRequest::Empty(e) => IconRequestView::Empty(e@),
            IconRequest::Inline(u) => IconRequestView::Inline(u@),
            IconRequest::Remote(u) => IconRequestView::Remote(u@),
        }
    }
}

pub open spec fn icon_request_of(url: Seq<char>) -> IconRequestView {
    let t = trim(url);
    if t.len() == 0 {
        IconRequestView::Empty("图标链接不能为空"@)
    } else if crate::text::is_prefix("data:"@, t) {
        IconRequestView::Inline(t)
    } else {
        IconRequestView::Remote(t)
    }
}

pub fn classify_icon_url(url: &str) -> (r: IconRequest)
    ensures
        r@ == icon_request_of(url@),
{
    let t = trim_chars(&chars_of(url));
    if t.len() == 0 {
        IconRequest::Empty(string_of(&chars_of("图标链接不能为空")))
    } else if crate::text::starts_with(&t, &chars_of("data:")) {
        IconRequest::Inline(string_of(&t))
    } else {
        IconRequest::Remote(string_of(&t))
    }
}

/// A cached icon file is used when it exists and was fetched from the same
/// address; a file with no recorded address is used only for avatars.
pub open spec fn icon_cache_usable(file_exists: bool, recorded: Option<Seq<char>>, url: Seq<char>, is_avatar: bool) -> bool {
    file_exists && match recorded {
        Some(r) => trim(r) == url,
        None => is_avatar,
    }
}

pub fn icon_cache_valid(file_exists: bool, recorded: Option<&str>, url: &str, is_avatar: bool) -> (r: bool)
    ensures
        r == icon_cache_usable(file_exists, crate::watch::opt_ref_view(recorded), url@, is_avatar),
{
    if !file_exists {
        return false;
    }
    match recorded {
        Some(rec) => crate::text::eq_chars(&trim_chars(&chars_of(rec)), &chars_of(url)),
        None => is_avatar,
    }
}

/// Addresses to fetch an icon from, in order: a mirrored address first when
/// the icon is not an avatar and the mirror changes it, then the address itself.
pub open spec fn icon_fetch_order(url: Seq<char>, mirrored: Seq<char>, is_avatar: bool) -> Seq<Seq<char>> {
    if !is_avatar && mirrored != url {
        seq![mirrored, url]
    } else {
        seq![url]
    }
}

pub fn icon_fetch_candidates(url: &str, mirrored: &str, is_avatar: bool) -> (r: Vec<String>)
    ensures
        crate::models::strs_view(r@) == icon_fetch_order(url@, mirrored@, is_avatar),
{
    let u = chars_of(url);
    let m = chars_of(mirrored);
    let mut out: Vec<String> = Vec::new();
    if !is_avatar && !crate::text::eq_chars(&m, &u) {
        out.push(string_of(&m));
    }
    out.push(string_of(&u));
    assert(crate::models::strs_view(out@) =~= icon_fetch_order(url@, mirrored@, is_avatar));
    out
}

/// The error when no address gave the icon.
pub fn icon_fetch_error(url: &str, last_error: &str) -> (r: String)
    ensures
        r@ == "拉取远程图标失败 ("@ + url@ + "): "@ + last_error@,
{
    string_of(&concat(&concat(&concat(&chars_of("拉取远程图标失败 ("), &chars_of(url)), &chars_of("): ")), &chars_of(last_error)))
}

} // verus!
