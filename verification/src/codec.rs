//! Bytes and their text forms, and digests.

use sha2::Digest;
use base64::Engine;
use vstd::prelude::*;
use vstd::string::*;
use vstd::utf8::*;

verus! {

// ── Hexadecimal ─────────────────────────────────────────────────────────

pub open spec fn hex_digit(n: int) -> char {
    if n < 10 {
        (48 + n) as char
    } else {
        (87 + n) as char
    }
}

/// Bytes as two lower-case hexadecimal digits each.
pub open spec fn hex(bytes: Seq<u8>) -> Seq<char>
    decreases bytes.len(),
{
    if bytes.len() == 0 {
        seq![]
    } else {
        hex(bytes.drop_last()).push(hex_digit(bytes.last() as int / 16)).push(
            hex_digit(bytes.last() as int % 16),
        )
    }
}

fn hex_char(n: u8) -> (r: char)
    requires
        n < 16,
    ensures
        r == hex_digit(n as int),
{
    if n < 10 {
        (48 + n) as char
    } else {
        (87 + n) as char
    }
}

pub fn hex_lower(bytes: &[u8]) -> (r: String)
    ensures
        r@ == hex(bytes@),
{
    let mut out = String::new();
    let mut i: usize = 0;
    while i < bytes.len()
        invariant
            i <= bytes.len(),
            out@ == hex(bytes@.take(i as int)),
        decreases bytes.len() - i,
    {
        assert(bytes@.take(i + 1).drop_last() =~= bytes@.take(i as int));
        out.push(hex_char(bytes[i] / 16));
        out.push(hex_char(bytes[i] % 16));
        i = i + 1;
    }
    assert(bytes@.take(i as int) =~= bytes@);
    out
}

/// Two digits stand for each byte.
pub proof fn lemma_hex_len(bytes: Seq<u8>)
    ensures
        hex(bytes).len() == 2 * bytes.len(),
    decreases bytes.len(),
{
    if bytes.len() > 0 {
        lemma_hex_len(bytes.drop_last());
    }
}

/// Different bytes have different hexadecimal forms.
pub proof fn law_hex_tells_bytes_apart(a: Seq<u8>, b: Seq<u8>)
    requires
        hex(a) == hex(b),
    ensures
        a == b,
    decreases a.len(),
{
    lemma_hex_len(a);
    lemma_hex_len(b);
    if a.len() > 0 {
        let ha = hex(a);
        let hb = hex(b);
        let n = ha.len();
        let x = a.last() as int;
        let y = b.last() as int;
        assert(ha[n - 1] == hex_digit(x % 16) && ha[n - 2] == hex_digit(x / 16));
        assert(hb[n - 1] == hex_digit(y % 16) && hb[n - 2] == hex_digit(y / 16));
        assert(0 <= x / 16 < 16 && 0 <= y / 16 < 16);
        assert(x % 16 == y % 16 && x / 16 == y / 16);
        assert(x == y);
        assert(ha.take(n - 2) =~= hex(a.drop_last()));
        assert(hb.take(n - 2) =~= hex(b.drop_last()));
        law_hex_tells_bytes_apart(a.drop_last(), b.drop_last());
        assert(a =~= a.drop_last().push(a.last()));
        assert(b =~= b.drop_last().push(b.last()));
    } else {
        assert(a =~= b);
    }
}

// ── Comparison ──────────────────────────────────────────────────────────

/// Whether two byte strings are the same, in a time that depends on their lengths alone.
pub fn constant_time_eq(a: &[u8], b: &[u8]) -> (r: bool)
    ensures
        r == (a@ == b@),
{
    if a.len() != b.len() {
        return false;
    }
    let mut diff: u8 = 0;
    let mut i: usize = 0;
    assert(a@.take(0) =~= b@.take(0));
    while i < a.len()
        invariant
            i <= a.len(),
            a.len() == b.len(),
            diff == 0 <==> a@.take(i as int) == b@.take(i as int),
        decreases a.len() - i,
    {
        let x: u8 = a[i];
        let y: u8 = b[i];
        let before: u8 = diff;
        diff = diff | (x ^ y);
        proof {
            assert(before | (x ^ y) == 0 <==> before == 0 && x == y) by (bit_vector);
            let ta = a@.take(i + 1);
            let tb = b@.take(i + 1);
            assert(ta.drop_last() =~= a@.take(i as int));
            assert(tb.drop_last() =~= b@.take(i as int));
            if ta == tb {
                assert(ta[i as int] == tb[i as int]);
            }
            if a@.take(i as int) == b@.take(i as int) && x == y {
                assert(ta =~= tb) by {
                    assert forall|k: int| 0 <= k < ta.len() implies ta[k] == tb[k] by {
                        if k < i {
                            assert(a@.take(i as int)[k] == b@.take(i as int)[k]);
                        }
                    }
                }
            }
        }
        i = i + 1;
    }
    assert(a@.take(i as int) =~= a@);
    assert(b@.take(i as int) =~= b@);
    diff == 0
}

/// The bytes of a text.
pub open spec fn utf8(s: Seq<char>) -> Seq<u8> {
    encode_utf8(s)
}

/// Texts with the same bytes are the same.
pub proof fn lemma_utf8_injective(a: Seq<char>, b: Seq<char>)
    ensures
        utf8(a) == utf8(b) <==> a == b,
{
    encode_utf8_decode_utf8(a);
    encode_utf8_decode_utf8(b);
}

/// Whether two texts are the same, in a time that depends on their lengths alone.
pub fn same_secret(a: &str, b: &str) -> (r: bool)
    ensures
        r == (a@ == b@),
{
    proof {
        lemma_utf8_injective(a@, b@);
    }
    constant_time_eq(a.as_bytes(), b.as_bytes())
}

// ── SHA-256 ─────────────────────────────────────────────────────────────

/// The SHA-256 digest of bytes.
pub uninterp spec fn sha256(data: Seq<u8>) -> Seq<u8>;

/// `sha2::Sha256::digest`: the digest of bytes, which is 32 bytes long.
#[verifier::external_body]
pub(crate) fn sha256_of(data: &[u8]) -> (r: Vec<u8>)
    ensures
        r@ == sha256(data@),
        r@.len() == 32,
{
    sha2::Sha256::digest(data).to_vec()
}

/// The digest of a text, in hexadecimal.
pub fn sha256_hex(input: &str) -> (r: String)
    ensures
        r@ == hex(sha256(utf8(input@))),
{
    let digest = sha256_of(input.as_bytes());
    hex_lower(digest.as_slice())
}

/// The first half of the digest of a text, in hexadecimal.
pub open spec fn short_digest(input: Seq<char>) -> Seq<char> {
    hex(sha256(utf8(input)).take(16))
}

/// The first half of the digest of a text, in hexadecimal: 32 digits.
pub fn short_hash(input: &str) -> (r: String)
    ensures
        r@ == short_digest(input@),
        r@.len() == 32,
{
    let mut digest = sha256_of(input.as_bytes());
    digest.truncate(16);
    proof {
        assert(digest@ =~= sha256(utf8(input@)).take(16));
        lemma_hex_len(digest@);
    }
    hex_lower(digest.as_slice())
}

// ── Base64 ──────────────────────────────────────────────────────────────

/// The URL-safe base64 form of bytes, without padding.
pub uninterp spec fn b64url(data: Seq<u8>) -> Seq<char>;

/// The bytes that a text stands for in URL-safe base64 without padding.
pub uninterp spec fn b64url_decoded(text: Seq<char>) -> Option<Seq<u8>>;

/// The bytes that a text stands for in standard base64.
pub uninterp spec fn b64_decoded(text: Seq<char>) -> Option<Seq<u8>>;

/// The characters of URL-safe base64.
pub open spec fn is_url_safe(c: char) -> bool {
    'A' <= c <= 'Z' || 'a' <= c <= 'z' || '0' <= c <= '9' || c == '-' || c == '_'
}

/// `URL_SAFE_NO_PAD.encode`: the form of bytes in the URL-safe alphabet, four characters for
/// three bytes and no padding, which decodes to the bytes.
#[verifier::external_body]
pub(crate) fn b64url_encode(data: &[u8]) -> (r: String)
    ensures
        r@ == b64url(data@),
        b64url_decoded(r@) == Some(data@),
        r@.len() == (4 * data@.len() + 2) / 3,
        forall|i: int| 0 <= i < r@.len() ==> is_url_safe(#[trigger] r@[i]),
{
    base64::engine::general_purpose::URL_SAFE_NO_PAD.encode(data)
}

/// `URL_SAFE_NO_PAD.decode`: the bytes that a text stands for, or nothing where it is not such a
/// form.
#[verifier::external_body]
pub(crate) fn b64url_decode(text: &str) -> (r: Option<Vec<u8>>)
    ensures
        match r {
            Some(data) => b64url_decoded(text@) == Some(data@),
            None => b64url_decoded(text@) is None,
        },
{
    base64::engine::general_purpose::URL_SAFE_NO_PAD.decode(text).ok()
}

/// `STANDARD.decode`: the bytes that a text stands for, or nothing where it is not such a form.
#[verifier::external_body]
pub(crate) fn b64_decode(text: &str) -> (r: Option<Vec<u8>>)
    ensures
        match r {
            Some(data) => b64_decoded(text@) == Some(data@),
            None => b64_decoded(text@) is None,
        },
{
    base64::engine::general_purpose::STANDARD.decode(text).ok()
}

// ── UTF-8 ───────────────────────────────────────────────────────────────

/// `String::from_utf8`: the text that bytes spell, or nothing where they are not UTF-8.
#[verifier::external_body]
pub(crate) fn text_of_utf8(data: Vec<u8>) -> (r: Option<String>)
    ensures
        match r {
            Some(s) => valid_utf8(data@) && s@ == decode_utf8(data@),
            None => !valid_utf8(data@),
        },
{
    String::from_utf8(data).ok()
}

/// What `String::from_utf8_lossy` makes of bytes.
pub uninterp spec fn lossy(data: Seq<u8>) -> Seq<char>;

/// `String::from_utf8_lossy`: the text that bytes spell, with a mark in place of what is not UTF-8.
#[verifier::external_body]
pub(crate) fn lossy_text(data: &[u8]) -> (r: String)
    ensures
        r@ == lossy(data@),
        valid_utf8(data@) ==> r@ == decode_utf8(data@),
{
    String::from_utf8_lossy(data).into_owned()
}

} // verus!
