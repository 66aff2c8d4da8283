use aes_gcm::aead::{Aead, KeyInit, Payload};
use aes_gcm::{Aes256Gcm, Nonce};
use base64::Engine;
use hkdf::Hkdf;
use sha2::Sha256;
use x25519_dalek::{PublicKey, StaticSecret};

use gosh_agent::auth::MemoryAuthState;
use gosh_agent::crypto::{decrypt_agent_secret, SecretKey, SECRET_INFO};
use gosh_agent::join::{base64url_decode, base64url_encode, frame, unframe, JoinToken};
use gosh_agent::keychain::{account_of, file_of};
use gosh_agent::serve::{
    agent_id_of, bind_is_public, check_inline_join, log_filter,
    resolve_memory_connection, secret_key_of, serve_settings, watched_agent, ServeFlags,
};
use gosh_agent::plugin::config::LogLevel;
use gosh_agent::plugin::setup::fresh_config;

fn encrypt_for_test(agent_public: &PublicKey, plaintext: &str) -> String {
    let ephemeral_secret = StaticSecret::from([7u8; 32]);
    let ephemeral_public = PublicKey::from(&ephemeral_secret);
    let shared = ephemeral_secret.diffie_hellman(agent_public);
    let hkdf = Hkdf::<Sha256>::new(None, shared.as_bytes());
    let mut aes_key = [0u8; 32];
    hkdf.expand(SECRET_INFO.as_bytes(), &mut aes_key).unwrap();
    let cipher = Aes256Gcm::new_from_slice(&aes_key).unwrap();
    let nonce = [9u8; 12];
    let payload = Payload { msg: plaintext.as_bytes(), aad: SECRET_INFO.as_bytes() };
    let ct = cipher.encrypt(Nonce::from_slice(&nonce), payload).unwrap();
    let mut envelope = Vec::new();
    envelope.extend_from_slice(b"GMS1");
    envelope.extend_from_slice(ephemeral_public.as_bytes());
    envelope.extend_from_slice(&nonce);
    envelope.extend_from_slice(&ct);
    base64::engine::general_purpose::STANDARD.encode(&envelope)
}

fn key(byte: u8) -> (SecretKey, PublicKey) {
    let bytes = [byte; 32];
    let private = SecretKey::new(bytes.to_vec()).expect("32 bytes");
    (private, PublicKey::from(&StaticSecret::from(bytes)))
}

#[test]
fn roundtrip_encrypt_decrypt() {
    let (private, public) = key(3);
    let secret = "agent-secret-roundtrip-fixture";
    let ciphertext_b64 = encrypt_for_test(&public, secret);

    let decrypted = decrypt_agent_secret(&private, &ciphertext_b64).unwrap();
    assert_eq!(decrypted, secret);
}

#[test]
fn wrong_key_fails() {
    let (_, public1) = key(3);
    let (private2, _) = key(4);

    let ciphertext_b64 = encrypt_for_test(&public1, "secret");
    let result = decrypt_agent_secret(&private2, &ciphertext_b64);
    assert!(result.is_err());
}

#[test]
fn bad_magic_rejected() {
    let mut envelope = vec![0u8; 64];
    envelope[..4].copy_from_slice(b"BAD!");
    let b64 = base64::engine::general_purpose::STANDARD.encode(&envelope);

    let (private, _) = key(3);
    let result = decrypt_agent_secret(&private, &b64);
    assert!(result.is_err());
    assert!(result.unwrap_err().contains("magic"));
}

#[test]
fn too_short_rejected() {
    let envelope = b"GMS1short";
    let b64 = base64::engine::general_purpose::STANDARD.encode(envelope);

    let (private, _) = key(3);
    let result = decrypt_agent_secret(&private, &b64);
    assert!(result.is_err());
    assert!(result.unwrap_err().contains("too short"));
}

#[test]
fn secret_keys_have_one_length() {
    assert!(SecretKey::new(vec![0; 31]).is_none());
    assert!(SecretKey::from_file(vec![0; 33]).err().unwrap().ends_with("got 33"));
    assert!(decrypt_agent_secret(&key(1).0, "***").is_err());
    assert_eq!(
        secret_key_of("a", None).unwrap_err(),
        "no `secret_key` found in keychain for agent 'a'. Run `gosh agent create --instance a` or `gosh agent import` to provision it"
    );
    assert_eq!(secret_key_of("a", Some("!")).unwrap_err(), "decoding secret_key from keychain");
    assert_eq!(
        secret_key_of("a", Some("AAECAw==")).unwrap_err(),
        "secret_key from keychain must be exactly 32 bytes, got 4"
    );
    let key = secret_key_of("a", Some("AQEBAQEBAQEBAQEBAQEBAQEBAQEBAQEBAQEBAQEBAQE=")).unwrap();
    assert_eq!(key, vec![1u8; 32]);
}

#[test]
fn roundtrip() {
    let token = JoinToken {
        url: "https://192.168.1.10:8765".to_string(),
        transport_token: Some("secret123".to_string()),
        principal_id: Some("agent:planner".to_string()),
        principal_token: Some("principal-secret".to_string()),
        fingerprint: Some("sha256:abcdef".to_string()),
        ca: Some("-----BEGIN CERTIFICATE-----\ntest\n-----END CERTIFICATE-----".to_string()),
    };
    let encoded = token.encode().unwrap();
    assert!(encoded.starts_with("gosh_join_"));
    let decoded = JoinToken::decode(&encoded).unwrap();
    assert_eq!(decoded.url, "https://192.168.1.10:8765");
    assert_eq!(decoded.transport_token.as_deref(), Some("secret123"));
    assert_eq!(decoded.principal_id.as_deref(), Some("agent:planner"));
    assert_eq!(decoded.principal_token.as_deref(), Some("principal-secret"));
    assert_eq!(decoded.fingerprint.as_deref(), Some("sha256:abcdef"));
    assert_eq!(
        decoded.ca.as_deref(),
        Some("-----BEGIN CERTIFICATE-----\ntest\n-----END CERTIFICATE-----")
    );
}

#[test]
fn join_tokens_are_read_from_their_json() {
    let read = |json: &str| JoinToken::decode(&frame(json.as_bytes()));
    let token = read("{\"url\": \"http://h\", \"token\": \"t\", \"more\": 1}").unwrap();
    assert_eq!(token.transport_token.as_deref(), Some("t"));
    assert!(token.principal_token.is_none());
    let token = read("{\"url\": \"http://h\", \"principal_auth_token\": \"p\"}").unwrap();
    assert_eq!(token.principal_token.as_deref(), Some("p"));
    for (json, error) in [
        ("[]", "join token payload is not an object"),
        ("{}", "join token has no url"),
        ("{\"url\": 1}", "join token field `url` is not a string"),
        (
            "{\"url\": \"http://h\", \"token\": \"a\", \"transport_token\": \"b\"}",
            "join token has duplicate field `transport_token`",
        ),
        ("{\"url\": \"\", \"token\": \"t\"}", "join token has empty url"),
        (
            "{\"url\": \"http://h\"}",
            "join token must include transport_token or principal_token",
        ),
        (
            "{\"url\": \"ftp://h\", \"token\": \"t\"}",
            "join token URL must use http:// or https:// (got: ftp://h)",
        ),
    ] {
        assert_eq!(read(json).unwrap_err(), error);
    }
    assert_eq!(
        JoinToken::decode(&frame(&[0xff])).unwrap_err(),
        "join token payload is not UTF-8"
    );
    assert!(read("{ nope").unwrap_err().contains("line 1"));
}

#[test]
fn base64url_has_no_padding() {
    assert_eq!(base64url_encode(b"hello?>"), "aGVsbG8_Pg");
    assert_eq!(base64url_decode("aGVsbG8_Pg").unwrap(), b"hello?>");
    for n in 0..40u8 {
        let data: Vec<u8> = (0..n).map(|i| i.wrapping_mul(37)).collect();
        assert_eq!(base64url_decode(&base64url_encode(&data)).unwrap(), data);
    }
    assert!(base64url_decode("a*b").is_err());
    assert!(unframe("other_abc").is_err());
}

fn join(principal_id: Option<&str>) -> JoinToken {
    JoinToken {
        url: "http://127.0.0.1:8765".into(),
        transport_token: Some("server-xyz".into()),
        principal_id: principal_id.map(|s| s.to_string()),
        principal_token: Some("principal-abc".into()),
        fingerprint: None,
        ca: None,
    }
}

#[test]
fn resolve_memory_connection_parses_join_bundle() {
    let join = join(Some("agent:planner"));
    let resolved = resolve_memory_connection(Some(&join), None, &None, &None, &None).unwrap();
    assert_eq!(resolved.memory_url, "http://127.0.0.1:8765");
    assert_eq!(resolved.transport_token.as_deref(), Some("server-xyz"));
    assert_eq!(resolved.principal_token.as_deref(), Some("principal-abc"));
    assert_eq!(resolved.principal_id.as_deref(), Some("agent:planner"));
}

#[test]
fn resolve_memory_connection_honors_explicit_memory_url_override() {
    let join = join(None);
    let resolved = resolve_memory_connection(
        Some(&join),
        Some("http://memory.example:9999/mcp"),
        &None,
        &None,
        &None,
    )
    .unwrap();
    assert_eq!(resolved.memory_url, "http://memory.example:9999");
}

#[test]
fn join_tokens_are_checked() {
    assert!(join(None).check().is_ok());
    let mut empty = join(None);
    empty.url = String::new();
    assert_eq!(empty.check().unwrap_err(), "join token has empty url");
    let mut bare = join(None);
    bare.transport_token = None;
    bare.principal_token = None;
    assert!(bare.check().is_err());
    let mut pinned = join(None);
    pinned.fingerprint = Some("sha256:abc".into());
    assert!(resolve_memory_connection(Some(&pinned), None, &None, &None, &None).is_err());
    assert!(check_inline_join("raw", false).is_err());
    assert!(check_inline_join("gosh_join_x", false).is_ok());
    assert!(check_inline_join("raw", true).is_ok());
    assert_eq!(MemoryAuthState::from_join_token(&pinned).tls_fingerprint.as_deref(), Some("sha256:abc"));
}

#[test]
fn explicit_flags_win_over_configuration() {
    let mut config = fresh_config("id".to_string());
    config.port = Some(9000);
    config.watch = true;
    config.key = Some(String::new());
    let mut flags = ServeFlags {
        host: None,
        port: None,
        watch: false,
        no_watch: false,
        watch_key: None,
        watch_context_key: None,
        watch_agent_id: None,
        watch_swarm_id: None,
        poll_interval: None,
        watch_budget: None,
    };
    let settings = serve_settings(&flags, &config);
    assert_eq!(settings.host, "127.0.0.1");
    assert_eq!(settings.port, 9000);
    assert!(settings.watch);
    assert_eq!(settings.poll_interval, 30);
    assert_eq!(settings.watch_key, "default");
    assert_eq!(settings.default_key, None);
    flags.port = Some(1);
    flags.no_watch = true;
    let settings = serve_settings(&flags, &config);
    assert_eq!(settings.port, 1);
    assert!(!settings.watch);
}

#[test]
fn daemons_know_their_agent_and_their_exposure() {
    assert_eq!(agent_id_of(Some("agent:planner")), "planner");
    assert_eq!(agent_id_of(Some("user:x")), "default");
    assert_eq!(agent_id_of(None), "default");
    assert_eq!(watched_agent("default", "planner"), "planner");
    assert_eq!(watched_agent("other", "planner"), "other");
    assert!(bind_is_public("0.0.0.0"));
    assert!(!bind_is_public("127.0.0.1"));
    assert!(log_filter(LogLevel::Debug).starts_with("gosh_agent=debug,gosh_agent::http=debug,"));
    assert_eq!(account_of("alpha"), "agent/alpha");
    assert_eq!(file_of("/d", "agent/alpha"), "/d/agent_alpha.json");
}
