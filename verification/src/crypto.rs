//! Sealed secrets: an X25519 sealed box around an AES-256-GCM ciphertext.

use aes_gcm::aead::Aead;
use aes_gcm::KeyInit;
use vstd::prelude::*;
use vstd::string::*;
use vstd::utf8::*;
use zeroize::Zeroize;

use crate::codec;
use crate::codec::b64_decode;
use crate::codec::text_of_utf8;
use crate::text;
use crate::text::decimal_of;

verus! {

/// `GMS1`, with which every envelope starts.
pub open spec fn envelope_magic() -> Seq<u8> {
    seq![71u8, 77u8, 83u8, 49u8]
}

/// What the key is derived for, and what is authenticated beside the ciphertext.
pub const SECRET_INFO: &'static str = "gosh.memory/agent-secrets/v1";

/// An X25519 private key.
pub struct SecretKey {
    bytes: Vec<u8>,
}

impl SecretKey {
    pub closed spec fn view(&self) -> Seq<u8> {
        self.bytes@
    }

    #[verifier::type_invariant]
    spec fn well_formed(&self) -> bool {
        self.bytes@.len() == 32
    }

    /// A key from its bytes, where there are 32.
    pub fn new(bytes: Vec<u8>) -> (r: Option<SecretKey>)
        ensures
            match r {
                Some(key) => bytes@.len() == 32 && key@ == bytes@,
                None => bytes@.len() != 32,
            },
    {
        if bytes.len() == 32 {
            Some(SecretKey { bytes })
        } else {
            None
        }
    }

    /// A key from the contents of a key file.
    pub fn from_file(bytes: Vec<u8>) -> (r: Result<SecretKey, String>)
        ensures
            match r {
                Ok(key) => bytes@.len() == 32 && key@ == bytes@,
                Err(message) => bytes@.len() != 32 && message@
                    == "secret key file must be exactly 32 bytes, got "@ + text::decimal(
                    bytes@.len(),
                ),
            },
    {
        let n: usize = bytes.len();
        match SecretKey::new(bytes) {
            Some(key) => Ok(key),
            None => {
                let mut message = "secret key file must be exactly 32 bytes, got ".to_owned();
                message.append(decimal_of(n as u64).as_str());
                Err(message)
            },
        }
    }
}

/// The secret that a private and a public X25519 key share.
pub uninterp spec fn x25519(private: Seq<u8>, public: Seq<u8>) -> Seq<u8>;

/// `x25519_dalek::StaticSecret::diffie_hellman`: the secret that two keys share, 32 bytes.
#[verifier::external_body]
fn shared_secret(private: &[u8], public: &[u8]) -> (r: Vec<u8>)
    requires
        private@.len() == 32,
        public@.len() == 32,
    ensures
        r@ == x25519(private@, public@),
        r@.len() == 32,
{
    let private: [u8; 32] = private.try_into().unwrap();
    let public: [u8; 32] = public.try_into().unwrap();
    let key = x25519_dalek::StaticSecret::from(private);
    key.diffie_hellman(&x25519_dalek::PublicKey::from(public)).as_bytes().to_vec()
}

/// The 32 bytes that HKDF-SHA256 derives without a salt.
pub uninterp spec fn hkdf_sha256(secret: Seq<u8>, info: Seq<u8>) -> Seq<u8>;

/// `hkdf::Hkdf::<Sha256>::expand`: the derived key.  For 32 bytes it never fails.
#[verifier::external_body]
fn derive_key(secret: &[u8], info: &[u8]) -> (r: Option<Vec<u8>>)
    ensures
        r is Some,
        r->0@ == hkdf_sha256(secret@, info@),
        r->0@.len() == 32,
{
    let mut key = vec![0u8; 32];
    hkdf::Hkdf::<sha2::Sha256>::new(None, secret).expand(info, &mut key).ok()?;
    Some(key)
}

/// What AES-256-GCM opens a ciphertext to, where its tag is right.
pub uninterp spec fn aes256_gcm_opened(
    key: Seq<u8>,
    nonce: Seq<u8>,
    aad: Seq<u8>,
    ciphertext: Seq<u8>,
) -> Option<Seq<u8>>;

/// `aes_gcm::Aes256Gcm::decrypt`: the plaintext, or nothing where the tag is wrong.
#[verifier::external_body]
fn open_sealed(key: &[u8], nonce: &[u8], aad: &[u8], ciphertext: &[u8]) -> (r: Option<Vec<u8>>)
    requires
        key@.len() == 32,
        nonce@.len() == 12,
    ensures
        match r {
            Some(plain) => aes256_gcm_opened(key@, nonce@, aad@, ciphertext@) == Some(plain@),
            None => aes256_gcm_opened(key@, nonce@, aad@, ciphertext@) is None,
        },
{
    let payload = aes_gcm::aead::Payload { msg: ciphertext, aad };
    let cipher = aes_gcm::Aes256Gcm::new_from_slice(key).ok()?;
    cipher.decrypt(aes_gcm::Nonce::from_slice(nonce), payload).ok()
}

/// `zeroize::Zeroize` on a vector: it is overwritten and left empty.
#[verifier::external_body]
fn wipe(bytes: &mut Vec<u8>)
    ensures
        final(bytes)@.len() == 0,
{
    bytes.zeroize();
}

/// What opening the parts of an envelope gives: the secret, or what went wrong.
pub open spec fn opened(key: Seq<u8>, envelope: Seq<u8>) -> Result<Seq<char>, Seq<char>> {
    let public = envelope.subrange(4, 36);
    let nonce = envelope.subrange(36, 48);
    let ciphertext = envelope.skip(48);
    let info = codec::utf8(SECRET_INFO@);
    match aes256_gcm_opened(hkdf_sha256(x25519(key, public), info), nonce, info, ciphertext) {
        None => Err("AES-GCM decrypt failed"@),
        Some(plain) => if valid_utf8(plain) {
            Ok(decode_utf8(plain))
        } else {
            Err("decrypted secret is not valid UTF-8"@)
        },
    }
}

/// What unsealing a secret gives, or what went wrong.
pub open spec fn unsealed(key: Seq<u8>, envelope: Option<Seq<u8>>) -> Result<Seq<char>, Seq<char>> {
    match envelope {
        None => Err("base64 decode of sealed secret"@),
        Some(e) => if e.len() < 64 {
            Err("sealed envelope too short: "@ + text::decimal(e.len()) + " bytes"@)
        } else if e.take(4) != envelope_magic() {
            Err("invalid envelope magic: expected GMS1"@)
        } else {
            opened(key, e)
        },
    }
}

fn part(bytes: &Vec<u8>, from: usize, to: usize) -> (r: Vec<u8>)
    requires
        from <= to <= bytes.len(),
    ensures
        r@ == bytes@.subrange(from as int, to as int),
{
    let mut out: Vec<u8> = Vec::new();
    let mut i: usize = from;
    while i < to
        invariant
            from <= i <= to <= bytes.len(),
            out@ == bytes@.subrange(from as int, i as int),
        decreases to - i,
    {
        out.push(bytes[i]);
        i = i + 1;
    }
    out
}

/// Opens the parts of an envelope.
fn open_envelope(private_key: &SecretKey, envelope: &Vec<u8>) -> (r: Result<String, String>)
    requires
        envelope@.len() >= 64,
    ensures
        match r {
            Ok(secret) => opened(private_key@, envelope@) == Ok::<Seq<char>, Seq<char>>(secret@),
            Err(message) => opened(private_key@, envelope@) == Err::<Seq<char>, Seq<char>>(
                message@,
            ),
        },
{
    proof {
        use_type_invariant(private_key);
    }
    let public = part(envelope, 4, 36);
    let nonce = part(envelope, 36, 48);
    let ciphertext = part(envelope, 48, envelope.len());
    assert(ciphertext@ =~= envelope@.skip(48));
    let shared = shared_secret(private_key.bytes.as_slice(), public.as_slice());
    let derived = derive_key(shared.as_slice(), SECRET_INFO.as_bytes());
    let mut aes_key = match derived {
        Some(key) => key,
        None => {
            return Err("HKDF expand failed".to_owned());
        },
    };
    let plain = open_sealed(
        aes_key.as_slice(),
        nonce.as_slice(),
        SECRET_INFO.as_bytes(),
        ciphertext.as_slice(),
    );
    wipe(&mut aes_key);
    match plain {
        None => Err("AES-GCM decrypt failed".to_owned()),
        Some(bytes) => match text_of_utf8(bytes) {
            Some(secret) => Ok(secret),
            None => Err("decrypted secret is not valid UTF-8".to_owned()),
        },
    }
}

/// Opens an envelope: checks its length and its magic, and decrypts it.
pub fn decrypt_envelope(private_key: &SecretKey, envelope: Option<Vec<u8>>) -> (r: Result<
    String,
    String,
>)
    ensures
        ({
            let bytes = match envelope {
                Some(e) => Some(e@),
                None => None,
            };
            match r {
                Ok(secret) => unsealed(private_key@, bytes) == Ok::<Seq<char>, Seq<char>>(secret@),
                Err(message) => unsealed(private_key@, bytes) == Err::<Seq<char>, Seq<char>>(
                    message@,
                ),
            }
        }),
{
    let e = match envelope {
        Some(e) => e,
        None => {
            return Err("base64 decode of sealed secret".to_owned());
        },
    };
    if e.len() < 64 {
        let mut message = "sealed envelope too short: ".to_owned();
        message.append(decimal_of(e.len() as u64).as_str());
        message.append(" bytes");
        return Err(message);
    }
    assert(e@.take(4) =~= seq![e@[0], e@[1], e@[2], e@[3]]);
    if e[0] != 71 || e[1] != 77 || e[2] != 83 || e[3] != 49 {
        assert(e@.take(4)[0] != 71 || e@.take(4)[1] != 77 || e@.take(4)[2] != 83 || e@.take(4)[3]
            != 49);
        return Err("invalid envelope magic: expected GMS1".to_owned());
    }
    open_envelope(private_key, &e)
}

/// Opens a sealed secret that is given in base64.
pub fn decrypt_agent_secret(private_key: &SecretKey, ciphertext_b64: &str) -> (r: Result<
    String,
    String,
>)
    ensures
        match r {
            Ok(secret) => unsealed(private_key@, codec::b64_decoded(ciphertext_b64@)) == Ok::<
                Seq<char>,
                Seq<char>,
            >(secret@),
            Err(message) => unsealed(private_key@, codec::b64_decoded(ciphertext_b64@)) == Err::<
                Seq<char>,
                Seq<char>,
            >(message@),
        },
{
    let envelope = b64_decode(ciphertext_b64);
    decrypt_envelope(private_key, envelope)
}

/// A secret is only ever given for an envelope that is long enough and starts with its magic.
pub proof fn law_malformed_envelopes_open_to_nothing(key: Seq<u8>, envelope: Seq<u8>)
    requires
        envelope.len() < 64 || envelope.take(4) != envelope_magic(),
    ensures
        unsealed(key, Some(envelope)) is Err,
{
}

/// What was sealed for a key is opened with it: the parts of an envelope stand one behind the
/// other, and the text is what their decryption gives.
pub proof fn law_sealed_text_is_opened(
    key: Seq<u8>,
    public: Seq<u8>,
    nonce: Seq<u8>,
    ciphertext: Seq<u8>,
    secret: Seq<char>,
)
    requires
        public.len() == 32,
        nonce.len() == 12,
        ciphertext.len() >= 16,
        aes256_gcm_opened(
            hkdf_sha256(x25519(key, public), codec::utf8(SECRET_INFO@)),
            nonce,
            codec::utf8(SECRET_INFO@),
            ciphertext,
        ) == Some(codec::utf8(secret)),
    ensures
        unsealed(key, Some(seq![71u8, 77u8, 83u8, 49u8] + public + nonce + ciphertext)) == Ok::<
            Seq<char>,
            Seq<char>,
        >(secret),
{
    let e = seq![71u8, 77u8, 83u8, 49u8] + public + nonce + ciphertext;
    assert(e.take(4) =~= envelope_magic());
    assert(e.subrange(4, 36) =~= public);
    assert(e.subrange(36, 48) =~= nonce);
    assert(e.skip(48) =~= ciphertext);
    encode_utf8_decode_utf8(secret);
    encode_utf8_valid_utf8(secret);
}

/// An envelope whose tag is wrong is never taken for a secret.
pub proof fn law_forged_envelope_is_refused(key: Seq<u8>, e: Seq<u8>)
    requires
        e.len() >= 64,
        aes256_gcm_opened(
            hkdf_sha256(x25519(key, e.subrange(4, 36)), codec::utf8(SECRET_INFO@)),
            e.subrange(36, 48),
            codec::utf8(SECRET_INFO@),
            e.skip(48),
        ) is None,
    ensures
        unsealed(key, Some(e)) is Err,
        unsealed(key, None) is Err,
{
}

} // verus!
