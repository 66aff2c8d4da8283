//! Join tokens: what an agent needs to reach its memory server, in one line of text.

use vstd::prelude::*;
use vstd::string::*;
use vstd::utf8::*;

use crate::codec;
use crate::codec::text_of_utf8;
use crate::json;
use crate::json::put;
use crate::json::put_text;
use crate::json::JValue;
use crate::json::Json;
use crate::text;
use crate::text::starts_with;
use crate::text::strip_prefix;

verus! {

/// What every join token starts with.
pub const PREFIX: &'static str = "gosh_join_";

/// The payload of a join token.
#[derive(Debug)]
pub struct JoinToken {
    /// Memory server URL.
    pub url: String,
    /// Token for the server's perimeter.
    pub transport_token: Option<String>,
    /// The principal that the token was issued to.
    pub principal_id: Option<String>,
    /// Bearer token of the principal.
    pub principal_token: Option<String>,
    /// Fingerprint of the server's certificate.
    pub fingerprint: Option<String>,
    /// The server's certificate, PEM-encoded.
    pub ca: Option<String>,
}

pub ghost struct TokenV {
    pub url: Seq<char>,
    pub transport_token: Option<Seq<char>>,
    pub principal_id: Option<Seq<char>>,
    pub principal_token: Option<Seq<char>>,
    pub fingerprint: Option<Seq<char>>,
    pub ca: Option<Seq<char>>,
}

impl JoinToken {
    pub open spec fn view(&self) -> TokenV {
        TokenV {
            url: self.url@,
            transport_token: text::opt_text(self.transport_token),
            principal_id: text::opt_text(self.principal_id),
            principal_token: text::opt_text(self.principal_token),
            fingerprint: text::opt_text(self.fingerprint),
            ca: text::opt_text(self.ca),
        }
    }
}

// ── Base64 ──────────────────────────────────────────────────────────────

/// The character of a six-bit number, as a byte.
pub open spec fn digit(v: int) -> u8 {
    if v < 26 {
        (65 + v) as u8
    } else if v < 52 {
        (71 + v) as u8
    } else if v < 62 {
        (v - 4) as u8
    } else if v == 62 {
        45u8
    } else {
        95u8
    }
}

/// The six-bit number of a character.
pub open spec fn sextet(b: u8) -> Option<int> {
    if 65 <= b <= 90 {
        Some(b - 65)
    } else if 97 <= b <= 122 {
        Some(b - 71)
    } else if 48 <= b <= 57 {
        Some(b + 4)
    } else if b == 45 {
        Some(62)
    } else if b == 95 {
        Some(63)
    } else {
        None
    }
}

/// Bytes in URL-safe base64 without padding: four characters for three bytes.
pub open spec fn encoded(data: Seq<u8>) -> Seq<u8>
    decreases data.len(),
{
    if data.len() == 0 {
        seq![]
    } else if data.len() == 1 {
        seq![digit(data[0] as int / 4), digit(data[0] as int % 4 * 16)]
    } else if data.len() == 2 {
        seq![
            digit(data[0] as int / 4),
            digit(data[0] as int % 4 * 16 + data[1] as int / 16),
            digit(data[1] as int % 16 * 4),
        ]
    } else {
        seq![
            digit(data[0] as int / 4),
            digit(data[0] as int % 4 * 16 + data[1] as int / 16),
            digit(data[1] as int % 16 * 4 + data[2] as int / 64),
            digit(data[2] as int % 64),
        ] + encoded(data.skip(3))
    }
}

/// Bytes as the characters with the same numbers.
pub open spec fn as_text(bytes: Seq<u8>) -> Seq<char> {
    bytes.map_values(|b: u8| b as char)
}

/// The first character that is none of base64.
pub open spec fn first_bad(chunk: Seq<u8>) -> Option<u8>
    decreases chunk.len(),
{
    if chunk.len() == 0 {
        None
    } else if sextet(chunk[0]) is None {
        Some(chunk[0])
    } else {
        first_bad(chunk.drop_first())
    }
}

/// The bytes of two to four characters of base64.
pub open spec fn chunk_bytes(chunk: Seq<u8>) -> Seq<u8> {
    let a = sextet(chunk[0])->0;
    let b = sextet(chunk[1])->0;
    if chunk.len() == 2 {
        seq![(a * 4 + b / 16) as u8]
    } else {
        let c = sextet(chunk[2])->0;
        if chunk.len() == 3 {
            seq![(a * 4 + b / 16) as u8, (b % 16 * 16 + c / 4) as u8]
        } else {
            let d = sextet(chunk[3])->0;
            seq![
                (a * 4 + b / 16) as u8,
                (b % 16 * 16 + c / 4) as u8,
                (c % 4 * 64 + d) as u8,
            ]
        }
    }
}

/// What is said of a character that is none of base64.
pub open spec fn bad_character(b: u8) -> Seq<char> {
    "invalid base64url character: "@.push(b as char)
}

/// The bytes that base64 stands for, four characters at a time, or what is wrong with it.
pub open spec fn decoded(s: Seq<u8>) -> Result<Seq<u8>, Seq<char>>
    decreases s.len(),
{
    if s.len() == 0 {
        Ok(seq![])
    } else {
        let n = if s.len() < 4 {
            s.len() as int
        } else {
            4
        };
        match first_bad(s.take(n)) {
            Some(b) => Err(bad_character(b)),
            None => if n < 2 {
                Err("invalid base64url chunk length"@)
            } else {
                match decoded(s.skip(n)) {
                    Ok(rest) => Ok(chunk_bytes(s.take(n)) + rest),
                    Err(e) => Err(e),
                }
            },
        }
    }
}

proof fn lemma_digit(v: int)
    requires
        0 <= v < 64,
    ensures
        sextet(digit(v)) == Some(v),
        digit(v) < 128,
{
}

proof fn lemma_no_bad(chunk: Seq<u8>)
    requires
        forall|i: int| 0 <= i < chunk.len() ==> sextet(#[trigger] chunk[i]) is Some,
    ensures
        first_bad(chunk) is None,
    decreases chunk.len(),
{
    if chunk.len() > 0 {
        assert(sextet(chunk[0]) is Some);
        assert forall|i: int| 0 <= i < chunk.drop_first().len() implies sextet(
            #[trigger] chunk.drop_first()[i],
        ) is Some by {
            assert(chunk.drop_first()[i] == chunk[i + 1]);
        }
        lemma_no_bad(chunk.drop_first());
    }
}

/// Decoding undoes encoding.
#[verifier::spinoff_prover]
#[verifier::rlimit(40)]
pub proof fn law_decoding_undoes_encoding(data: Seq<u8>)
    ensures
        decoded(encoded(data)) == Ok::<Seq<u8>, Seq<char>>(data),
    decreases data.len(),
{
    let e = encoded(data);
    if data.len() == 0 {
        assert(data =~= seq![]);
    } else if data.len() == 1 {
        let x = data[0] as int;
        lemma_digit(x / 4);
        lemma_digit(x % 4 * 16);
        assert(e.take(2) =~= e);
        lemma_no_bad(e.take(2));
        assert(e.skip(2) =~= seq![]);
        assert(decoded(e.skip(2)) == Ok::<Seq<u8>, Seq<char>>(seq![]));
        assert(x / 4 * 4 + x % 4 * 16 / 16 == x);
        assert(chunk_bytes(e.take(2)) + seq![] =~= data);
    } else if data.len() == 2 {
        let x = data[0] as int;
        let y = data[1] as int;
        lemma_digit(x / 4);
        lemma_digit(x % 4 * 16 + y / 16);
        lemma_digit(y % 16 * 4);
        assert(e.take(3) =~= e);
        lemma_no_bad(e.take(3));
        assert(e.skip(3) =~= seq![]);
        assert(decoded(e.skip(3)) == Ok::<Seq<u8>, Seq<char>>(seq![]));
        assert(x / 4 * 4 + (x % 4 * 16 + y / 16) / 16 == x);
        assert((x % 4 * 16 + y / 16) % 16 * 16 + y % 16 * 4 / 4 == y);
        assert(chunk_bytes(e.take(3)) + seq![] =~= data);
    } else {
        let x = data[0] as int;
        let y = data[1] as int;
        let z = data[2] as int;
        lemma_digit(x / 4);
        lemma_digit(x % 4 * 16 + y / 16);
        lemma_digit(y % 16 * 4 + z / 64);
        lemma_digit(z % 64);
        lemma_no_bad(e.take(4));
        assert(e.skip(4) =~= encoded(data.skip(3)));
        law_decoding_undoes_encoding(data.skip(3));
        assert(x / 4 * 4 + (x % 4 * 16 + y / 16) / 16 == x);
        assert((x % 4 * 16 + y / 16) % 16 * 16 + (y % 16 * 4 + z / 64) / 4 == y);
        assert((y % 16 * 4 + z / 64) % 4 * 64 + z % 64 == z);
        assert(chunk_bytes(e.take(4)) + data.skip(3) =~= data);
    }
}

proof fn lemma_encoded_is_ascii(data: Seq<u8>)
    ensures
        forall|i: int| 0 <= i < encoded(data).len() ==> (#[trigger] encoded(data)[i]) < 128,
    decreases data.len(),
{
    if data.len() > 2 {
        lemma_encoded_is_ascii(data.skip(3));
        let rest = encoded(data.skip(3));
        assert forall|i: int| 0 <= i < encoded(data).len() implies (#[trigger] encoded(data)[i])
            < 128 by {
            if i >= 4 {
                assert(encoded(data)[i] == rest[i - 4]);
            }
        }
    }
}

proof fn lemma_encoded_bytes(data: Seq<u8>)
    ensures
        codec::utf8(as_text(encoded(data))) == encoded(data),
{
    lemma_encoded_is_ascii(data);
    let s = as_text(encoded(data));
    assert(vstd::utf8::is_ascii_chars(s)) by {
        assert forall|i: int| 0 <= i < s.len() implies (s[i] as int) < 128 by {
            assert(encoded(data)[i] < 128);
        }
    }
    vstd::utf8::is_ascii_chars_encode_utf8(s);
    assert(codec::utf8(s) =~= encoded(data));
}

fn digit_of(v: u8) -> (r: u8)
    requires
        v < 64,
    ensures
        r == digit(v as int),
{
    if v < 26 {
        65 + v
    } else if v < 52 {
        71 + v
    } else if v < 62 {
        v - 4
    } else if v == 62 {
        45
    } else {
        95
    }
}

/// Bytes in URL-safe base64 without padding.
pub fn base64url_encode(data: &[u8]) -> (r: String)
    ensures
        r@ == as_text(encoded(data@)),
        codec::utf8(r@) == encoded(data@),
{
    let mut out = String::new();
    let mut i: usize = 0;
    assert(data@.skip(0) =~= data@);
    assert(out@ + as_text(encoded(data@)) =~= as_text(encoded(data@)));
    while i < data.len()
        invariant
            i <= data.len(),
            out@ + as_text(encoded(data@.skip(i as int))) == as_text(encoded(data@)),
        decreases data.len() - i,
    {
        let ghost rest = data@.skip(i as int);
        let ghost before = out@;
        let left: usize = data.len() - i;
        let x: u8 = data[i];
        out.push(digit_of(x / 4) as char);
        if left == 1 {
            out.push(digit_of(x % 4 * 16) as char);
            proof {
                assert(as_text(encoded(rest)) =~= seq![
                    digit(x as int / 4) as char,
                    digit(x as int % 4 * 16) as char,
                ]);
                assert(data@.skip(i + 1) =~= seq![]);
                assert(out@ + as_text(encoded(data@.skip(i + 1))) =~= before + as_text(
                    encoded(rest),
                ));
            }
            i = i + 1;
        } else if left == 2 {
            let y: u8 = data[i + 1];
            out.push(digit_of(x % 4 * 16 + y / 16) as char);
            out.push(digit_of(y % 16 * 4) as char);
            proof {
                assert(as_text(encoded(rest)) =~= seq![
                    digit(x as int / 4) as char,
                    digit(x as int % 4 * 16 + y as int / 16) as char,
                    digit(y as int % 16 * 4) as char,
                ]);
                assert(data@.skip(i + 2) =~= seq![]);
                assert(out@ + as_text(encoded(data@.skip(i + 2))) =~= before + as_text(
                    encoded(rest),
                ));
            }
            i = i + 2;
        } else {
            let y: u8 = data[i + 1];
            let z: u8 = data[i + 2];
            out.push(digit_of(x % 4 * 16 + y / 16) as char);
            out.push(digit_of(y % 16 * 4 + z / 64) as char);
            out.push(digit_of(z % 64) as char);
            proof {
                assert(rest.skip(3) =~= data@.skip(i + 3));
                assert(as_text(encoded(rest)) =~= seq![
                    digit(x as int / 4) as char,
                    digit(x as int % 4 * 16 + y as int / 16) as char,
                    digit(y as int % 16 * 4 + z as int / 64) as char,
                    digit(z as int % 64) as char,
                ] + as_text(encoded(data@.skip(i + 3))));
                assert(out@ + as_text(encoded(data@.skip(i + 3))) =~= before + as_text(
                    encoded(rest),
                ));
            }
            i = i + 3;
        }
    }
    proof {
        assert(data@.skip(i as int) =~= seq![]);
        assert(out@ + as_text(encoded(seq![])) =~= out@);
        lemma_encoded_bytes(data@);
    }
    out
}

fn sextet_of(b: u8) -> (r: Option<u8>)
    ensures
        match r {
            Some(v) => v < 64 && sextet(b) == Some(v as int),
            None => sextet(b) is None,
        },
{
    if 65 <= b && b <= 90 {
        Some(b - 65)
    } else if 97 <= b && b <= 122 {
        Some(b - 71)
    } else if 48 <= b && b <= 57 {
        Some(b + 4)
    } else if b == 45 {
        Some(62)
    } else if b == 95 {
        Some(63)
    } else {
        None
    }
}

/// What decoding gives where some bytes are decoded already.
spec fn after(done: Seq<u8>, rest: Result<Seq<u8>, Seq<char>>) -> Result<Seq<u8>, Seq<char>> {
    match rest {
        Ok(bytes) => Ok(done + bytes),
        Err(e) => Err(e),
    }
}

/// The bytes that URL-safe base64 without padding stands for.
pub fn base64url_decode(input: &str) -> (r: Result<Vec<u8>, String>)
    ensures
        match r {
            Ok(data) => decoded(codec::utf8(input@)) == Ok::<Seq<u8>, Seq<char>>(data@),
            Err(message) => decoded(codec::utf8(input@)) == Err::<Seq<u8>, Seq<char>>(message@),
        },
{
    let bytes = input.as_bytes();
    let mut out: Vec<u8> = Vec::new();
    let mut i: usize = 0;
    assert(bytes@.skip(0) =~= bytes@);
    proof {
        if let Ok(all) = decoded(bytes@) {
            assert(out@ + all =~= all);
        }
    }
    while i < bytes.len()
        invariant
            i <= bytes.len(),
            bytes@ == codec::utf8(input@),
            decoded(bytes@) == after(out@, decoded(bytes@.skip(i as int))),
        decreases bytes.len() - i,
    {
        let left: usize = bytes.len() - i;
        let n: usize = if left < 4 {
            left
        } else {
            4
        };
        let ghost rest = bytes@.skip(i as int);
        let ghost chunk = rest.take(n as int);
        let ghost before = out@;
        let mut vals: Vec<u8> = Vec::new();
        assert(chunk.skip(0) =~= chunk);
        let mut k: usize = 0;
        while k < n
            invariant
                k <= n,
                n <= 4,
                i + n <= bytes.len(),
                n == if bytes.len() - i < 4 {
                    bytes.len() - i
                } else {
                    4
                },
                bytes@ == codec::utf8(input@),
                rest == bytes@.skip(i as int),
                rest.len() > 0,
                chunk == rest.take(n as int),
                vals.len() == k,
                first_bad(chunk) == first_bad(chunk.skip(k as int)),
                decoded(bytes@) == after(out@, decoded(rest)),
                forall|j: int|
                    0 <= j < k ==> vals@[j] < 64 && sextet(chunk[j]) == Some(
                        #[trigger] vals@[j] as int,
                    ),
            decreases n - k,
        {
            let b: u8 = bytes[i + k];
            assert(chunk.skip(k as int)[0] == b);
            assert(chunk.skip(k as int).drop_first() =~= chunk.skip(k + 1));
            match sextet_of(b) {
                Some(v) => {
                    vals.push(v);
                },
                None => {
                    let mut message = "invalid base64url character: ".to_owned();
                    message.push(b as char);
                    return Err(message);
                },
            }
            k = k + 1;
        }
        assert(chunk.skip(n as int) =~= seq![]);
        if n < 2 {
            return Err("invalid base64url chunk length".to_owned());
        }
        assert(rest.skip(n as int) =~= bytes@.skip(i + n));
        let a: u8 = vals[0];
        let b: u8 = vals[1];
        assert(sextet(chunk[0]) == Some(a as int) && sextet(chunk[1]) == Some(b as int));
        out.push(a * 4 + b / 16);
        if n > 2 {
            let c: u8 = vals[2];
            assert(sextet(chunk[2]) == Some(c as int));
            out.push(b % 16 * 16 + c / 4);
            if n > 3 {
                let d: u8 = vals[3];
                assert(sextet(chunk[3]) == Some(d as int));
                out.push(c % 4 * 64 + d);
            }
        }
        proof {
            assert(out@ =~= before + chunk_bytes(chunk));
            if let Ok(tail) = decoded(bytes@.skip(i + n)) {
                assert(before + (chunk_bytes(chunk) + tail) =~= out@ + tail);
            }
        }
        i = i + n;
    }
    proof {
        assert(bytes@.skip(i as int) =~= seq![]);
        assert(out@ + Seq::<u8>::empty() =~= out@);
    }
    Ok(out)
}

// ── Tokens ──────────────────────────────────────────────────────────────

/// A payload as a join token.
pub open spec fn framed(payload: Seq<u8>) -> Seq<char> {
    PREFIX@ + as_text(encoded(payload))
}

/// The payload of a join token, or what is wrong with the token.
pub open spec fn unframed(input: Seq<char>) -> Result<Seq<u8>, Seq<char>> {
    match text::without_prefix(input, PREFIX@) {
        None => Err("join token must start with '"@ + PREFIX@ + "'"@),
        Some(rest) => decoded(codec::utf8(rest)),
    }
}

/// Reading a join token gives back the payload that it was made from.
pub proof fn law_payload_survives_framing(payload: Seq<u8>)
    ensures
        unframed(framed(payload)) == Ok::<Seq<u8>, Seq<char>>(payload),
{
    let s = framed(payload);
    assert(s.subrange(0, PREFIX@.len() as int) =~= PREFIX@);
    assert(s.skip(PREFIX@.len() as int) =~= as_text(encoded(payload)));
    lemma_encoded_bytes(payload);
    law_decoding_undoes_encoding(payload);
}

/// A payload as a join token.
pub fn frame(payload: &[u8]) -> (r: String)
    ensures
        r@ == framed(payload@),
{
    let mut out = PREFIX.to_owned();
    let body = base64url_encode(payload);
    out.append(body.as_str());
    out
}

/// The payload of a join token.
pub fn unframe(input: &str) -> (r: Result<Vec<u8>, String>)
    ensures
        match r {
            Ok(payload) => unframed(input@) == Ok::<Seq<u8>, Seq<char>>(payload@),
            Err(message) => unframed(input@) == Err::<Seq<u8>, Seq<char>>(message@),
        },
{
    match strip_prefix(input, PREFIX) {
        None => {
            let mut message = "join token must start with '".to_owned();
            message.append(PREFIX);
            message.append("'");
            Err(message)
        },
        Some(rest) => base64url_decode(rest),
    }
}

// ── Payloads ────────────────────────────────────────────────────────────

/// A text that may be missing, as JSON.
pub open spec fn opt_json(o: Option<Seq<char>>) -> JValue {
    match o {
        Some(s) => JValue::Str(s),
        None => JValue::Null,
    }
}

/// A payload as JSON.
pub open spec fn token_json(t: TokenV) -> JValue {
    JValue::Obj(
        Map::<Seq<char>, JValue>::empty().insert("url"@, JValue::Str(t.url)).insert(
            "transport_token"@,
            opt_json(t.transport_token),
        ).insert("principal_id"@, opt_json(t.principal_id)).insert(
            "principal_token"@,
            opt_json(t.principal_token),
        ).insert("fingerprint"@, opt_json(t.fingerprint)).insert("ca"@, opt_json(t.ca)),
    )
}

/// What is said of a field that is no text.
pub open spec fn not_a_text(key: Seq<char>) -> Seq<char> {
    "join token field `"@ + key + "` is not a string"@
}

/// A field that may be missing.
pub open spec fn field_in(v: JValue, key: Seq<char>) -> Result<Option<Seq<char>>, Seq<char>> {
    match json::jget(v, key) {
        None | Some(JValue::Null) => Ok(None),
        Some(JValue::Str(s)) => Ok(Some(s)),
        Some(_) => Err(not_a_text(key)),
    }
}

/// A field that may be missing and goes by two names, of which only one may be there.
pub open spec fn aliased_in(v: JValue, key: Seq<char>, alias: Seq<char>) -> Result<
    Option<Seq<char>>,
    Seq<char>,
> {
    match (json::jget(v, key), json::jget(v, alias)) {
        (Some(_), Some(_)) => Err("join token has duplicate field `"@ + key + "`"@),
        (None, Some(_)) => field_in(v, alias),
        _ => field_in(v, key),
    }
}

/// The payload that JSON holds, or what is wrong with the JSON.
pub open spec fn token_in(v: JValue) -> Result<TokenV, Seq<char>> {
    if !(v is Obj) {
        Err("join token payload is not an object"@)
    } else {
        match field_in(v, "url"@) {
            Err(e) => Err(e),
            Ok(None) => Err("join token has no url"@),
            Ok(Some(url)) => match (
                aliased_in(v, "transport_token"@, "token"@),
                field_in(v, "principal_id"@),
                aliased_in(v, "principal_token"@, "principal_auth_token"@),
                field_in(v, "fingerprint"@),
                field_in(v, "ca"@),
            ) {
                (Err(e), _, _, _, _) => Err(e),
                (_, Err(e), _, _, _) => Err(e),
                (_, _, Err(e), _, _) => Err(e),
                (_, _, _, Err(e), _) => Err(e),
                (_, _, _, _, Err(e)) => Err(e),
                (
                    Ok(transport_token),
                    Ok(principal_id),
                    Ok(principal_token),
                    Ok(fingerprint),
                    Ok(ca),
                ) => Ok(
                    TokenV {
                        url,
                        transport_token,
                        principal_id,
                        principal_token,
                        fingerprint,
                        ca,
                    },
                ),
            },
        }
    }
}

proof fn lemma_keys()
    ensures
        "url"@.len() == 3 && "url"@[0] == 'u',
        "transport_token"@.len() == 15 && "transport_token"@[0] == 't',
        "principal_id"@.len() == 12 && "principal_id"@[0] == 'p',
        "principal_token"@.len() == 15 && "principal_token"@[0] == 'p',
        "fingerprint"@.len() == 11 && "fingerprint"@[0] == 'f',
        "ca"@.len() == 2 && "ca"@[0] == 'c',
        "token"@.len() == 5,
        "principal_auth_token"@.len() == 20,
{
    reveal_strlit("url");
    reveal_strlit("transport_token");
    reveal_strlit("principal_id");
    reveal_strlit("principal_token");
    reveal_strlit("fingerprint");
    reveal_strlit("ca");
    reveal_strlit("token");
    reveal_strlit("principal_auth_token");
}

/// A payload is read back from its JSON.
pub proof fn law_payload_survives_json(t: TokenV)
    ensures
        token_in(token_json(t)) == Ok::<TokenV, Seq<char>>(t),
        json::is_record(token_json(t)),
{
    lemma_keys();
}

fn opt_value(o: &Option<String>) -> (r: Json)
    ensures
        r@ == opt_json(text::opt_text(*o)),
{
    match o {
        Some(s) => Json::text(s.as_str()),
        None => Json::Null,
    }
}

fn read_field(v: &Json, key: &str) -> (r: Result<Option<String>, String>)
    ensures
        match r {
            Ok(o) => field_in(v@, key@) == Ok::<Option<Seq<char>>, Seq<char>>(text::opt_text(o)),
            Err(e) => field_in(v@, key@) == Err::<Option<Seq<char>>, Seq<char>>(e@),
        },
{
    match v.get(key) {
        None | Some(Json::Null) => Ok(None),
        Some(Json::Str(s)) => Ok(Some(s.clone())),
        Some(_) => {
            let mut e = "join token field `".to_owned();
            e.append(key);
            e.append("` is not a string");
            Err(e)
        },
    }
}

fn read_aliased(v: &Json, key: &str, alias: &str) -> (r: Result<Option<String>, String>)
    ensures
        match r {
            Ok(o) => aliased_in(v@, key@, alias@) == Ok::<Option<Seq<char>>, Seq<char>>(
                text::opt_text(o),
            ),
            Err(e) => aliased_in(v@, key@, alias@) == Err::<Option<Seq<char>>, Seq<char>>(e@),
        },
{
    let named = v.get(key).is_some();
    let other = v.get(alias).is_some();
    if named && other {
        let mut e = "join token has duplicate field `".to_owned();
        e.append(key);
        e.append("`");
        Err(e)
    } else if other {
        read_field(v, alias)
    } else {
        read_field(v, key)
    }
}

/// Whether there is a text and it is not empty.
pub open spec fn given(o: Option<Seq<char>>) -> bool {
    o matches Some(s) && s.len() > 0
}

fn is_given(o: &Option<String>) -> (r: bool)
    ensures
        r == given(text::opt_text(*o)),
{
    match o {
        Some(s) => s.as_str().unicode_len() > 0,
        None => false,
    }
}

/// What is wrong with a payload, if anything.
pub open spec fn payload_error(token: TokenV) -> Option<Seq<char>> {
    if token.url.len() == 0 {
        Some("join token has empty url"@)
    } else if !given(token.transport_token) && !given(token.principal_token) {
        Some("join token must include transport_token or principal_token"@)
    } else if !text::has_prefix(token.url, "https://"@) && !text::has_prefix(
        token.url,
        "http://"@,
    ) {
        Some("join token URL must use http:// or https:// (got: "@ + token.url + ")"@)
    } else {
        None
    }
}

/// A payload as a join token.
pub open spec fn token_text(t: TokenV) -> Seq<char> {
    framed(codec::utf8(json::json_text(token_json(t))))
}

/// What a join token says, or what is wrong with it.
pub open spec fn told(input: Seq<char>) -> Result<TokenV, Seq<char>> {
    match unframed(input) {
        Err(e) => Err(e),
        Ok(payload) => if !valid_utf8(payload) {
            Err("join token payload is not UTF-8"@)
        } else {
            match json::json_parsed(decode_utf8(payload)) {
                None => Err(json::json_error(decode_utf8(payload))),
                Some(v) => match token_in(v) {
                    Err(e) => Err(e),
                    Ok(t) => match payload_error(t) {
                        Some(e) => Err(e),
                        None => Ok(t),
                    },
                },
            }
        },
    }
}

impl JoinToken {
    /// Checks a payload: it names an HTTP(S) server and has a token for it.
    pub fn check(&self) -> (r: Result<(), String>)
        ensures
            match r {
                Ok(_) => payload_error(self@) is None,
                Err(message) => payload_error(self@) == Some(message@),
            },
    {
        if self.url.as_str().unicode_len() == 0 {
            return Err("join token has empty url".to_owned());
        }
        if !is_given(&self.transport_token) && !is_given(&self.principal_token) {
            return Err("join token must include transport_token or principal_token".to_owned());
        }
        if !starts_with(self.url.as_str(), "https://") && !starts_with(
            self.url.as_str(),
            "http://",
        ) {
            let mut message = "join token URL must use http:// or https:// (got: ".to_owned();
            message.append(self.url.as_str());
            message.append(")");
            return Err(message);
        }
        Ok(())
    }

    /// The token as a portable text.  A sound token is told by its text.
    pub fn encode(&self) -> (r: Result<String, String>)
        ensures
            r matches Ok(encoded) && encoded@ == token_text(self@) && text::has_prefix(
                encoded@,
                PREFIX@,
            ) && (payload_error(self@) is None ==> told(encoded@) == Ok::<TokenV, Seq<char>>(
                self@,
            )),
    {
        let mut entries: Vec<(String, Json)> = Vec::new();
        put_text(&mut entries, "url", self.url.as_str());
        put(&mut entries, "transport_token", opt_value(&self.transport_token));
        put(&mut entries, "principal_id", opt_value(&self.principal_id));
        put(&mut entries, "principal_token", opt_value(&self.principal_token));
        put(&mut entries, "fingerprint", opt_value(&self.fingerprint));
        put(&mut entries, "ca", opt_value(&self.ca));
        let payload = Json::Obj(entries);
        assert(payload@ == token_json(self@));
        let written = payload.to_text();
        let encoded = frame(written.as_str().as_bytes());
        proof {
            law_payload_survives_json(self@);
            law_payload_survives_framing(codec::utf8(written@));
            encode_utf8_decode_utf8(written@);
            encode_utf8_valid_utf8(written@);
            assert(encoded@.subrange(0, PREFIX@.len() as int) =~= PREFIX@);
        }
        Ok(encoded)
    }

    /// The token that a text tells.
    pub fn decode(input: &str) -> (r: Result<JoinToken, String>)
        ensures
            match r {
                Ok(token) => told(input@) == Ok::<TokenV, Seq<char>>(token@),
                Err(e) => told(input@) == Err::<TokenV, Seq<char>>(e@),
            },
    {
        let payload = match unframe(input) {
            Ok(payload) => payload,
            Err(e) => {
                return Err(e);
            },
        };
        let written = match text_of_utf8(payload) {
            Some(written) => written,
            None => {
                return Err("join token payload is not UTF-8".to_owned());
            },
        };
        let value = match Json::read(written.as_str()) {
            Ok(value) => value,
            Err(e) => {
                return Err(e);
            },
        };
        if !value.is_object() {
            return Err("join token payload is not an object".to_owned());
        }
        let url = match read_field(&value, "url") {
            Err(e) => {
                return Err(e);
            },
            Ok(None) => {
                return Err("join token has no url".to_owned());
            },
            Ok(Some(url)) => url,
        };
        let transport_token = match read_aliased(&value, "transport_token", "token") {
            Ok(o) => o,
            Err(e) => {
                return Err(e);
            },
        };
        let principal_id = match read_field(&value, "principal_id") {
            Ok(o) => o,
            Err(e) => {
                return Err(e);
            },
        };
        let principal_token = match read_aliased(
            &value,
            "principal_token",
            "principal_auth_token",
        ) {
            Ok(o) => o,
            Err(e) => {
                return Err(e);
            },
        };
        let fingerprint = match read_field(&value, "fingerprint") {
            Ok(o) => o,
            Err(e) => {
                return Err(e);
            },
        };
        let ca = match read_field(&value, "ca") {
            Ok(o) => o,
            Err(e) => {
                return Err(e);
            },
        };
        let token = JoinToken {
            url,
            transport_token,
            principal_id,
            principal_token,
            fingerprint,
            ca,
        };
        match token.check() {
            Ok(_) => Ok(token),
            Err(e) => Err(e),
        }
    }
}

/// The digits are those of URL-safe base64: letters, digits, a dash and an underscore, in order.
pub proof fn law_digits_are_url_safe(v: int)
    requires
        0 <= v < 64,
    ensures
        codec::is_url_safe(digit(v) as char),
        v < 26 ==> digit(v) == 65 + v,
        26 <= v < 52 ==> digit(v) == 97 + (v - 26),
        52 <= v < 62 ==> digit(v) == 48 + (v - 52),
        v == 62 ==> digit(v) == 45,
        v == 63 ==> digit(v) == 95,
        sextet(digit(v)) == Some(v),
{
}

/// Three bytes make four digits, and each digit six bits of them, the first ones first.
pub proof fn law_digits_hold_the_bits_in_order(data: Seq<u8>)
    ensures
        encoded(data).len() == (4 * data.len() + 2) / 3,
        data.len() >= 3 ==> encoded(data)[0] == digit(data[0] as int / 4) && encoded(data)[3] == digit(
            data[2] as int % 64,
        ) && (data[0] as int * 65536 + data[1] as int * 256 + data[2] as int) == sextet(
            encoded(data)[0],
        )->0 * 262144 + sextet(encoded(data)[1])->0 * 4096 + sextet(encoded(data)[2])->0 * 64
            + sextet(encoded(data)[3])->0,
    decreases data.len(),
{
    if data.len() >= 3 {
        law_digits_hold_the_bits_in_order(data.skip(3));
        let a = data[0] as int;
        let b = data[1] as int;
        let c = data[2] as int;
        law_digits_are_url_safe(a / 4);
        law_digits_are_url_safe(a % 4 * 16 + b / 16);
        law_digits_are_url_safe(b % 16 * 4 + c / 64);
        law_digits_are_url_safe(c % 64);
    }
}

/// A token must lead to a server by HTTP and let its holder in.
pub proof fn law_token_must_lead_somewhere(t: TokenV)
    ensures
        payload_error(t) is None <==> t.url.len() > 0 && (text::has_prefix(t.url, "https://"@)
            || text::has_prefix(t.url, "http://"@)) && ((t.transport_token matches Some(x) && x.len()
            > 0) || (t.principal_token matches Some(y) && y.len() > 0)),
{
}

/// The older names of a token's parts are understood, but not both at once; a part that is no text
/// is refused.
pub proof fn law_older_names_are_understood(v: JValue, key: Seq<char>, alias: Seq<char>, s: Seq<char>)
    ensures
        json::jget(v, key) is None && json::jget(v, alias) == Some(JValue::Str(s)) ==> aliased_in(
            v,
            key,
            alias,
        ) == Ok::<Option<Seq<char>>, Seq<char>>(Some(s)),
        json::jget(v, key) == Some(JValue::Str(s)) && json::jget(v, alias) is None ==> aliased_in(
            v,
            key,
            alias,
        ) == Ok::<Option<Seq<char>>, Seq<char>>(Some(s)),
        json::jget(v, key) is Some && json::jget(v, alias) is Some ==> aliased_in(v, key, alias) is Err,
        json::jget(v, key) is None ==> field_in(v, key) == Ok::<Option<Seq<char>>, Seq<char>>(None),
        json::jget(v, key) == Some(JValue::Bool(true)) ==> field_in(v, key) is Err,
{
}

/// A token without an address is none, and what does not begin as a token is none either.
pub proof fn law_what_is_no_token_is_refused(v: JValue, input: Seq<char>)
    ensures
        json::jget(v, "url"@) is None ==> token_in(v) is Err,
        !text::has_prefix(input, PREFIX@) ==> told(input) is Err,
        told(input) matches Ok(t) ==> payload_error(t) is None,
{
}

} // verus!
