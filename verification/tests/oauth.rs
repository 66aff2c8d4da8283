use gosh_agent::codec::{constant_time_eq, sha256_hex};
use gosh_agent::oauth::admin_token::{admin_token_path, generate_admin_token};
use gosh_agent::oauth::clients::{
    clients_path, generate_client_secret, hash_secret, hash_secret_with, validate_redirect_uri,
    verify_secret, ClientSource, ClientStore,
};
use gosh_agent::oauth::sessions::{
    generate_pin, generate_session_id, pin_of, session_id_of, verify_pkce_s256, ApproveError,
    AuthorizeRequest, CodeExchangeError, PinInfo, SessionStatus, SessionStore,
};
use gosh_agent::oauth::tokens::{
    generate_access_token, generate_refresh_token, generate_token_id, tokens_path, TokenStore,
};

const SECOND: i64 = 1_000_000_000;
const CALLBACK: &str = "https://client.example/cb";
const CHALLENGE: &str = "ungWv48Bz-pBQUDeXa4iI7ADYaOWF3qctBD_YfIAFa0";

fn req() -> AuthorizeRequest {
    AuthorizeRequest {
        client_id: "client-x".to_string(),
        redirect_uri: CALLBACK.to_string(),
        state: Some("s1".to_string()),
        code_challenge: "abc".to_string(),
        code_challenge_method: "S256".to_string(),
        scope: None,
    }
}

// ── sessions ──

#[test]
fn session_id_format_is_short_and_hex() {
    let id = generate_session_id();
    assert!(id.starts_with("sess_"));
    assert_eq!(id.len(), 5 + 8); // "sess_" + 8 hex chars
    assert!(id[5..].chars().all(|c| c.is_ascii_hexdigit() && !c.is_ascii_uppercase()));
    assert_eq!(session_id_of(&[0x0a, 0xff, 0x10, 0x00]), "sess_0aff1000");
}

#[test]
fn pin_is_six_digit_zero_padded() {
    for _ in 0..50 {
        let p = generate_pin();
        assert_eq!(p.len(), 6, "pin must be exactly 6 chars: {p}");
        assert!(p.chars().all(|c| c.is_ascii_digit()), "non-digit in pin: {p}");
    }
    assert_eq!(pin_of(&[7, 0, 0, 0]), "000007");
}

#[test]
fn create_session_returns_pending_with_expiry() {
    let mut store = SessionStore::new();
    let s = store.create(req());
    assert_eq!(s.status, SessionStatus::Pending);
    assert!(s.pin.is_none());
    assert!(s.authorization_code.is_none());
    assert!(s.expires_at > s.created_at);
    assert_eq!(store.find(&s.session_id).unwrap().session_id, s.session_id);
}

#[test]
fn issue_pin_then_approve_mints_code_and_marks_used() {
    let mut store = SessionStore::new();
    let s = store.create(req());
    let pin = store.issue_pin(&s.session_id).expect("session pending");
    let outcome = store.approve(&s.session_id, &pin).expect("approve");
    assert!(!outcome.authorization_code.is_empty());
    assert_eq!(outcome.redirect_uri, CALLBACK);
    assert_eq!(outcome.state.as_deref(), Some("s1"));
    let after = store.find(&s.session_id).unwrap();
    assert_eq!(after.status, SessionStatus::Approved);
    assert!(after.pin.as_ref().unwrap().used);
    assert!(after.authorization_code.is_some());
}

#[test]
fn approve_rejects_pin_mismatch_without_consuming_pin() {
    let mut store = SessionStore::new();
    let s = store.create(req());
    let _pin = store.issue_pin(&s.session_id).unwrap();
    let err = store.approve(&s.session_id, "000000").unwrap_err();
    assert_eq!(err, ApproveError::PinMismatch);
    // PIN remains valid for a retry within TTL.
    let after = store.find(&s.session_id).unwrap();
    assert!(!after.pin.as_ref().unwrap().used);
    assert_eq!(after.status, SessionStatus::Pending);
}

#[test]
fn approve_rejects_when_no_pin_issued_yet() {
    let mut store = SessionStore::new();
    let s = store.create(req());
    let err = store.approve(&s.session_id, "123456").unwrap_err();
    assert_eq!(err, ApproveError::NoPin);
}

#[test]
fn approve_rejects_after_pin_already_consumed() {
    let mut store = SessionStore::new();
    let s = store.create(req());
    let pin = store.issue_pin(&s.session_id).unwrap();
    let _ = store.approve(&s.session_id, &pin).unwrap();
    // Second approve attempt — session is now Approved.
    let err = store.approve(&s.session_id, &pin).unwrap_err();
    assert_eq!(err, ApproveError::AlreadyDecided);
}

#[test]
fn issue_pin_returns_none_when_session_not_pending() {
    let mut store = SessionStore::new();
    let s = store.create(req());
    let pin = store.issue_pin(&s.session_id).unwrap();
    store.approve(&s.session_id, &pin).unwrap();
    // Session is Approved → issue_pin must refuse.
    assert!(store.issue_pin(&s.session_id).is_none());
}

#[test]
fn re_issue_pin_invalidates_prior_pin() {
    let mut store = SessionStore::new();
    let s = store.create(req());
    let p1 = store.issue_pin(&s.session_id).unwrap();
    let p2 = store.issue_pin(&s.session_id).unwrap();
    // Old PIN must not approve, unless both are the same by chance.
    if p1 != p2 {
        let err = store.approve(&s.session_id, &p1);
        assert_eq!(err.unwrap_err(), ApproveError::PinMismatch);
    }
    // New PIN works.
    store.approve(&s.session_id, &p2).expect("new PIN approves");
}

#[test]
fn drop_removes_session_idempotent() {
    let mut store = SessionStore::new();
    let s = store.create(req());
    assert!(store.drop_session(&s.session_id));
    assert!(!store.drop_session(&s.session_id));
    assert!(store.find(&s.session_id).is_none());
}

#[test]
fn deny_marks_session_without_removing() {
    let mut store = SessionStore::new();
    let s = store.create(req());
    assert!(store.deny(&s.session_id));
    let after = store.find(&s.session_id).unwrap();
    assert_eq!(after.status, SessionStatus::Denied);
    // Re-deny is a no-op — session is no longer Pending.
    assert!(!store.deny(&s.session_id));
}

#[test]
fn sweep_evicts_expired_sessions() {
    let mut store = SessionStore::new();
    let s = store.create(req());
    assert_eq!(store.sweep(), 0);
    let removed = store.sweep_at(s.expires_at);
    assert_eq!(removed, 1);
    assert!(store.find(&s.session_id).is_none());
}

#[test]
fn list_includes_all_sessions_with_compact_view() {
    let mut store = SessionStore::new();
    let s = store.create(req());
    let view = store.list();
    assert_eq!(view.len(), 1);
    let v = &view[0];
    assert_eq!(v.session_id, s.session_id);
    assert_eq!(v.status, SessionStatus::Pending);
    assert!(!v.has_pending_pin);
    // After issuing PIN, view reflects it without leaking the value itself.
    store.issue_pin(&s.session_id).unwrap();
    let view = store.list();
    assert!(view[0].has_pending_pin);
}

#[test]
fn pin_info_is_active_respects_used_and_expiry() {
    let now: i64 = 1_800_000_000 * SECOND;
    let p = PinInfo { pin: "123456".into(), expires_at: now + 5 * 60 * SECOND, used: false };
    assert!(p.is_active(now));
    let used = PinInfo { pin: p.pin.clone(), expires_at: p.expires_at, used: true };
    assert!(!used.is_active(now));
    let expired = PinInfo { pin: p.pin.clone(), expires_at: now - SECOND, used: false };
    assert!(!expired.is_active(now));
}

#[test]
fn verify_pkce_s256_known_vector() {
    let verifier = "abc";
    let challenge = "ungWv48Bz-pBQUDeXa4iI7ADYaOWF3qctBD_YfIAFa0";
    assert!(verify_pkce_s256(verifier, challenge));
    assert!(!verify_pkce_s256("xyz", challenge));
    assert!(!verify_pkce_s256(verifier, "different-challenge"));
}

fn pump_to_approved(store: &mut SessionStore, challenge: &str) -> (String, String) {
    let mut r = req();
    r.code_challenge = challenge.to_string();
    let s = store.create(r);
    let pin = store.issue_pin(&s.session_id).unwrap();
    let outcome = store.approve(&s.session_id, &pin).unwrap();
    (s.session_id, outcome.authorization_code)
}

#[test]
fn consume_code_happy_path_marks_session_consumed() {
    let mut store = SessionStore::new();
    let (sid, code) = pump_to_approved(&mut store, CHALLENGE);

    let consumed = store
        .consume_authorization_code(&code, "client-x", CALLBACK, "abc")
        .expect("happy path");
    assert_eq!(consumed.client_id, "client-x");

    // The same code can't be exchanged again.
    let err =
        store.consume_authorization_code(&code, "client-x", CALLBACK, "abc").unwrap_err();
    assert_eq!(err, CodeExchangeError::UnknownCode);

    let after = store.find(&sid).unwrap();
    assert_eq!(after.status, SessionStatus::Consumed);
    assert!(after.authorization_code.is_none());
}

#[test]
fn consume_code_rejects_pkce_mismatch() {
    let mut store = SessionStore::new();
    let (_sid, code) = pump_to_approved(&mut store, CHALLENGE);

    let err = store
        .consume_authorization_code(&code, "client-x", CALLBACK, "wrong-verifier")
        .unwrap_err();
    assert_eq!(err, CodeExchangeError::PkceMismatch);
}

#[test]
fn consume_code_rejects_redirect_uri_mismatch() {
    let mut store = SessionStore::new();
    let (_sid, code) = pump_to_approved(&mut store, CHALLENGE);

    let err = store
        .consume_authorization_code(&code, "client-x", "https://attacker.example/cb", "abc")
        .unwrap_err();
    assert_eq!(err, CodeExchangeError::RedirectUriMismatch);
}

#[test]
fn consume_code_rejects_client_id_mismatch() {
    let mut store = SessionStore::new();
    let (_sid, code) = pump_to_approved(&mut store, CHALLENGE);

    let err = store
        .consume_authorization_code(&code, "different-client", CALLBACK, "abc")
        .unwrap_err();
    assert_eq!(err, CodeExchangeError::ClientMismatch);
}

#[test]
fn consume_code_rejects_expired_code() {
    let mut store = SessionStore::new();
    let (sid, code) = pump_to_approved(&mut store, CHALLENGE);
    let expiry = store.find(&sid).unwrap().code_expires_at.unwrap();

    let err = store
        .consume_authorization_code_at(&code, "client-x", CALLBACK, "abc", expiry)
        .unwrap_err();
    assert_eq!(err, CodeExchangeError::CodeExpired);
}

#[test]
fn consume_code_unknown_for_random_string() {
    let mut store = SessionStore::new();
    let err = store
        .consume_authorization_code("made-up-code", "client-x", CALLBACK, "abc")
        .unwrap_err();
    assert_eq!(err, CodeExchangeError::UnknownCode);
}

#[test]
fn approval_errors_come_in_their_order() {
    let mut store = SessionStore::new();
    assert_eq!(store.approve("sess_none", "1").unwrap_err(), ApproveError::UnknownSession);
    let s = store.create_at(req(), "sess_1".to_string(), 0);
    assert_eq!(
        store.approve_at("sess_1", "1", s.expires_at, "c".to_string()).unwrap_err(),
        ApproveError::Expired
    );
    assert!(store.issue_pin_at("sess_1", 0, "111111".to_string()));
    let pin_end = store.find_at("sess_1", 0).unwrap().pin.as_ref().unwrap().expires_at;
    assert_eq!(
        store.approve_at("sess_1", "111111", pin_end, "c".to_string()).unwrap_err(),
        ApproveError::PinExpired
    );
    let ok = store.approve_at("sess_1", "111111", 1, "code".to_string()).unwrap();
    assert_eq!(ok.authorization_code, "code");
}

#[test]
fn codes_of_expired_sessions_are_unknown() {
    let mut store = SessionStore::new();
    let s = store.create_at(req(), "sess_1".to_string(), 0);
    let last = s.expires_at - 1;
    assert!(store.issue_pin_at("sess_1", last, "111111".to_string()));
    store.approve_at("sess_1", "111111", last, "code".to_string()).unwrap();
    assert_eq!(
        store
            .consume_authorization_code_at("code", "client-x", CALLBACK, "abc", s.expires_at)
            .unwrap_err(),
        CodeExchangeError::UnknownCode
    );
}

// ── tokens ──

fn store() -> TokenStore {
    TokenStore::new(&[])
}

#[test]
fn token_id_format_is_short_and_hex() {
    let id = generate_token_id();
    assert!(id.starts_with("tok_"));
    assert_eq!(id.len(), 4 + 8);
    assert!(id[4..].chars().all(|c| c.is_ascii_hexdigit() && !c.is_ascii_uppercase()));
}

#[test]
fn access_and_refresh_have_distinct_prefixes() {
    let a = generate_access_token();
    let r = generate_refresh_token();
    assert!(a.starts_with("at_"));
    assert!(r.starts_with("rt_"));
    assert_ne!(a, r);
}

#[test]
fn mint_returns_plaintext_and_persists_only_hash() {
    let mut s = store();
    let m = s.mint_pair("client-x", Some("read".into()));
    assert!(m.access_token.starts_with("at_"));
    assert!(m.refresh_token.starts_with("rt_"));
    assert!(m.token_id.starts_with("tok_"));

    // What is kept on disk has neither text in it.
    let records = s.records();
    let kept = format!("{records:?}");
    assert!(!kept.contains(&m.refresh_token));
    assert!(!kept.contains(&m.access_token));
}

#[test]
fn verify_access_round_trip_and_unknown_token_misses() {
    let mut s = store();
    let m = s.mint_pair("client-x", None);
    let entry = s.verify_access(&m.access_token).expect("just minted");
    assert_eq!(entry.client_id, "client-x");
    assert_eq!(entry.origin_token_id, m.token_id);
    assert!(s.verify_access("at_unknown_value").is_none());
}

#[test]
fn verify_access_returns_none_for_expired_token() {
    let mut s = store();
    let m = s.mint_pair("client-x", None);
    assert!(s.verify_access_at(&m.access_token, m.access_expires_at - 1).is_some());
    assert!(s.verify_access_at(&m.access_token, m.access_expires_at).is_none());
}

#[test]
fn rotate_refresh_invalidates_old_and_issues_new_pair() {
    let mut s = store();
    let first = s.mint_pair("client-x", Some("scope".into()));
    let rotated = s.rotate_refresh(&first.refresh_token, "client-x").unwrap();

    // New plaintext is different.
    assert_ne!(rotated.refresh_token, first.refresh_token);
    assert_ne!(rotated.access_token, first.access_token);
    assert_ne!(rotated.token_id, first.token_id);

    // Old refresh no longer rotates.
    assert!(s.rotate_refresh(&first.refresh_token, "client-x").is_none());

    // Old access token also evicted (cascade).
    assert!(s.verify_access(&first.access_token).is_none());

    // New access token works.
    assert!(s.verify_access(&rotated.access_token).is_some());
}

#[test]
fn rotate_refresh_rejects_when_authenticating_client_does_not_match() {
    let mut s = store();
    let m = s.mint_pair("client-a", None);
    let res = s.rotate_refresh(&m.refresh_token, "client-b");
    assert!(res.is_none());
    // Old refresh stays valid for its rightful owner.
    assert!(s.rotate_refresh(&m.refresh_token, "client-a").is_some());
}

#[test]
fn revoke_by_id_drops_refresh_and_cascades_access_tokens() {
    let mut s = store();
    let m = s.mint_pair("client-x", None);
    assert!(s.verify_access(&m.access_token).is_some());

    assert!(s.revoke_by_id(&m.token_id));
    // Refresh gone.
    assert!(s.rotate_refresh(&m.refresh_token, "client-x").is_none());
    // Access cascaded.
    assert!(s.verify_access(&m.access_token).is_none());
    // Idempotent.
    assert!(!s.revoke_by_id(&m.token_id));
}

#[test]
fn revoke_refresh_plain_round_trip_and_idempotent() {
    let mut s = store();
    let m = s.mint_pair("client-x", None);
    assert!(s.revoke_refresh_plain(&m.refresh_token));
    assert!(!s.revoke_refresh_plain(&m.refresh_token));
    assert!(!s.revoke_refresh_plain("rt_unknown"));
}

#[test]
fn revoke_access_plain_evicts_only_access_keeps_refresh_alive() {
    let mut s = store();
    let m = s.mint_pair("client-x", None);
    assert!(s.revoke_access_plain(&m.access_token));
    assert!(s.verify_access(&m.access_token).is_none());
    // Refresh still rotates.
    assert!(s.rotate_refresh(&m.refresh_token, "client-x").is_some());
}

#[test]
fn revoke_by_client_drops_every_token_for_that_client() {
    let mut s = store();
    let a1 = s.mint_pair("client-a", None);
    let a2 = s.mint_pair("client-a", None);
    let b = s.mint_pair("client-b", None);

    let removed = s.revoke_by_client("client-a");
    assert_eq!(removed, 2);
    assert!(s.verify_access(&a1.access_token).is_none());
    assert!(s.verify_access(&a2.access_token).is_none());
    assert!(s.verify_access(&b.access_token).is_some());
}

#[test]
fn list_refresh_strips_hashes_and_counts_active_access() {
    let mut s = store();
    let m = s.mint_pair("client-x", Some("audit".into()));
    let view = s.list_refresh();
    assert_eq!(view.len(), 1);
    let v = &view[0];
    assert_eq!(v.token_id, m.token_id);
    assert_eq!(v.client_id, "client-x");
    assert_eq!(v.scope.as_deref(), Some("audit"));
    assert_eq!(v.active_access_tokens, 1);
    let body = format!("{v:?}");
    assert!(!body.contains("token_hash"), "list output leaks token_hash: {body}");
    assert!(!body.contains(&sha256_hex(&m.refresh_token)));
}

#[test]
fn sweep_access_evicts_expired_tokens_only() {
    let mut s = store();
    let stale = s.mint_pair_at(
        "client-y",
        None,
        0,
        "tok_stale".to_string(),
        "at_stale".to_string(),
        "rt_stale".to_string(),
    );
    let live = s.mint_pair("client-x", None);

    let removed = s.sweep_access();
    assert_eq!(removed, 1);
    assert!(s.verify_access(&live.access_token).is_some());
    assert!(s.verify_access(&stale.access_token).is_none());
}

#[test]
fn touch_updates_last_used_at_and_persists() {
    let mut s = store();
    let m = s.mint_pair("client-x", None);
    assert!(s.records()[0].last_used_at.is_none());

    assert!(s.touch(&m.token_id));
    assert!(s.records()[0].last_used_at.is_some());
    assert!(!s.touch("tok_unknown"));
}

#[test]
fn refresh_tokens_survive_reload() {
    let mut s = store();
    let m = s.mint_pair("client-x", Some("read".into()));
    let records = s.records();
    assert_eq!(records.len(), 1);
    assert_eq!(records[0].token_id, m.token_id);
    assert_eq!(records[0].token_hash, sha256_hex(&m.refresh_token));
    // A new store knows the refresh token, and none of the access tokens.
    let mut reloaded = TokenStore::new(&records);
    assert!(reloaded.verify_access(&m.access_token).is_none());
    assert!(reloaded.rotate_refresh(&m.refresh_token, "client-x").is_some());
}

#[test]
fn constant_time_eq_basic_sanity() {
    assert!(constant_time_eq(b"abc", b"abc"));
    assert!(!constant_time_eq(b"abc", b"abd"));
    assert!(!constant_time_eq(b"abc", b"ab"));
}

#[test]
fn sha256_is_written_in_hexadecimal() {
    assert_eq!(
        sha256_hex("abc"),
        "ba7816bf8f01cfea414140de5dae2223b00361a396177a9cb410ff61f20015ad"
    );
}

// ── clients ──

#[test]
fn hash_secret_uses_random_salt_so_two_calls_differ() {
    let a = hash_secret("samesame");
    let b = hash_secret("samesame");
    assert_ne!(a, b, "salt must vary across hash_secret calls");
}

#[test]
fn verify_secret_round_trip() {
    let secret = generate_client_secret();
    let h = hash_secret(&secret);
    assert!(verify_secret(&secret, &h));
    assert!(!verify_secret("wrong-secret", &h));
    assert!(!verify_secret(&secret, "not-a-valid-hash"));
    assert!(!verify_secret(&secret, "no-colon-here"));
    // No salt: the digest of the secret alone.
    assert_eq!(hash_secret_with("abc", &[]), format!(":{CHALLENGE}"));
}

#[test]
fn store_register_then_find_then_revoke_round_trip() {
    let mut store = ClientStore::new(Vec::new());

    let r = store.register(
        "test-client",
        ClientSource::Manual,
        vec!["https://x.example/cb".into()],
    );
    assert!(!r.client_id.is_empty());
    assert!(!r.client_secret.is_empty());
    assert!(verify_secret(&r.client_secret, &r.client.secret_hash));

    let found = store.find(&r.client_id).expect("just registered");
    assert_eq!(found.name, "test-client");
    assert_eq!(found.source, ClientSource::Manual);
    assert_eq!(found.redirect_uris, vec!["https://x.example/cb".to_string()]);
    assert!(found.allows_redirect("https://x.example/cb"));
    assert!(!found.allows_redirect("https://x.example/cb2"));

    // What is kept makes the same store again.
    let reloaded = ClientStore::new(store.list());
    let after = reloaded.find(&r.client_id).expect("survives reload");
    assert!(verify_secret(&r.client_secret, &after.secret_hash));

    // Revoke is idempotent.
    assert!(store.revoke(&r.client_id));
    assert!(!store.revoke(&r.client_id));
    assert!(store.find(&r.client_id).is_none());
}

#[test]
fn store_load_returns_empty_when_file_absent() {
    let store = ClientStore::new(Vec::new());
    assert!(store.list().is_empty());
}

#[test]
fn registered_secret_is_not_persisted_in_plaintext() {
    let mut store = ClientStore::new(Vec::new());
    let r = store.register(
        "plaintext-leak-canary",
        ClientSource::Dcr,
        vec!["https://x.example/cb".into()],
    );
    let body = format!("{:?}", store.list());
    assert!(!body.contains(&r.client_secret), "secret leaked into what is kept: {body}");
}

#[test]
fn clients_are_seen_when_they_are_touched() {
    let mut store = ClientStore::new(Vec::new());
    let r = store.register("c", ClientSource::Manual, vec![]);
    assert!(store.find(&r.client_id).unwrap().last_seen_at.is_none());
    assert!(store.touch_at(&r.client_id, 5));
    assert_eq!(store.find(&r.client_id).unwrap().last_seen_at, Some(5));
    assert!(!store.touch("nobody"));
}

#[test]
fn validate_redirect_uri_accepts_http_and_https_with_host() {
    assert!(validate_redirect_uri("https://client.example/api/mcp/auth_callback").is_ok());
    assert!(validate_redirect_uri("http://127.0.0.1:8080/cb").is_ok());
}

#[test]
fn validate_redirect_uri_rejects_obvious_bad_input() {
    assert!(validate_redirect_uri("").is_err());
    assert!(validate_redirect_uri("ftp://example.com/cb").is_err());
    assert!(validate_redirect_uri("https://").is_err());
    assert!(validate_redirect_uri("javascript:alert(1)").is_err());
    // Fragments are explicitly forbidden.
    assert!(validate_redirect_uri("https://client.example/cb#frag").is_err());
}

#[test]
fn generated_tokens_are_url_safe_and_distinct() {
    let a = generate_admin_token();
    let b = generate_admin_token();
    assert_ne!(a, b);
    // URL-safe base64 — no '+', '/', or '=' padding.
    for c in a.chars() {
        assert!(
            c.is_ascii_alphanumeric() || c == '-' || c == '_',
            "unexpected char {c:?} in admin token"
        );
    }
    // 32 bytes b64-encoded without padding = 43 chars.
    assert_eq!(a.len(), 43);
}

#[test]
fn oauth_files_stand_under_the_state_of_their_agent() {
    let home = Some("/home/u");
    assert_eq!(clients_path(home, "a"), "/home/u/.gosh/agent/state/a/oauth/clients.toml");
    assert_eq!(tokens_path(home, "a"), "/home/u/.gosh/agent/state/a/oauth/tokens.toml");
    assert!(admin_token_path(home, "a").starts_with("/home/u/.gosh/agent/state/a/"));
}
