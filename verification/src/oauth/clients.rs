//! Registered OAuth clients.

use vstd::prelude::*;
use vstd::string::*;

use crate::chance;
use crate::chance::new_uuid;
use crate::chance::now_nanos;
use crate::chance::random_bytes;
use crate::codec;
use crate::codec::b64url_decode;
use crate::codec::b64url_encode;
use crate::codec::constant_time_eq;
use crate::codec::sha256_of;
use crate::paths;
use crate::paths::join_path;
use crate::plugin::config;
use crate::plugin::config::state_dir;
use crate::text;
use crate::text::chars_of;
use crate::text::contains;
use crate::text::copy_strings;
use crate::text::find_chars;
use crate::text::same;
use crate::text::starts_with;
use crate::text::string_of;

verus! {

/// How a client got into the registry.
#[derive(Debug, Clone, Copy, PartialEq, Eq, Structural)]
pub enum ClientSource {
    /// It registered itself.
    Dcr,
    /// An operator registered it.
    Manual,
}

/// A registered client.  Only a salted hash of its secret is kept.
#[derive(Debug)]
pub struct OAuthClient {
    pub client_id: String,
    pub name: String,
    pub source: ClientSource,
    /// `<salt>:<hash>`, both in URL-safe base64.
    pub secret_hash: String,
    pub redirect_uris: Vec<String>,
    /// Nanoseconds since 1970.
    pub created_at: i64,
    pub last_seen_at: Option<i64>,
}

pub ghost struct ClientV {
    pub client_id: Seq<char>,
    pub name: Seq<char>,
    pub source: ClientSource,
    pub secret_hash: Seq<char>,
    pub redirect_uris: Seq<Seq<char>>,
    pub created_at: i64,
    pub last_seen_at: Option<i64>,
}

impl OAuthClient {
    pub open spec fn view(&self) -> ClientV {
        ClientV {
            client_id: self.client_id@,
            name: self.name@,
            source: self.source,
            secret_hash: self.secret_hash@,
            redirect_uris: text::texts(self.redirect_uris@),
            created_at: self.created_at,
            last_seen_at: self.last_seen_at,
        }
    }

    pub fn copy(&self) -> (r: OAuthClient)
        ensures
            r@ == self@,
    {
        OAuthClient {
            client_id: self.client_id.clone(),
            name: self.name.clone(),
            source: self.source,
            secret_hash: self.secret_hash.clone(),
            redirect_uris: copy_strings(self.redirect_uris.as_slice()),
            created_at: self.created_at,
            last_seen_at: self.last_seen_at,
        }
    }

    /// Whether the client registered a redirect URI, letter for letter.
    pub fn allows_redirect(&self, uri: &str) -> (r: bool)
        ensures
            r == self@.redirect_uris.contains(uri@),
    {
        let mut i: usize = 0;
        while i < self.redirect_uris.len()
            invariant
                i <= self.redirect_uris.len(),
                forall|k: int| 0 <= k < i ==> (#[trigger] self.redirect_uris@[k])@ != uri@,
            decreases self.redirect_uris.len() - i,
        {
            if same(self.redirect_uris[i].as_str(), uri) {
                assert(self@.redirect_uris[i as int] == uri@);
                return true;
            }
            i = i + 1;
        }
        assert(!self@.redirect_uris.contains(uri@)) by {
            if self@.redirect_uris.contains(uri@) {
                let k = choose|k: int|
                    0 <= k < self@.redirect_uris.len() && self@.redirect_uris[k] == uri@;
                assert(self.redirect_uris@[k]@ == uri@);
            }
        }
        false
    }
}

/// Path of the client registry of an agent instance.
pub fn clients_path(home: Option<&str>, agent_name: &str) -> (r: String)
    ensures
        r@ == paths::joined_path(
            paths::joined_path(config::state_path(text::opt_slice(home), agent_name@), "oauth"@),
            "clients.toml"@,
        ),
{
    let dir = state_dir(home, agent_name);
    let oauth = join_path(dir.as_str(), "oauth");
    join_path(oauth.as_str(), "clients.toml")
}

/// What is wrong with a redirect URI, if anything.
pub open spec fn redirect_uri_error(uri: Seq<char>) -> Option<Seq<char>> {
    if uri.len() == 0 {
        Some("must not be empty"@)
    } else if !(text::has_prefix(uri, "https://"@) || text::has_prefix(uri, "http://"@)) {
        Some("must use http(s) scheme"@)
    } else if uri == "https://"@ || uri == "http://"@ {
        Some("missing host after scheme"@)
    } else if text::has_infix(uri, "#"@) {
        Some("must not contain a URI fragment per RFC 6749 §3.1.2"@)
    } else {
        None
    }
}

/// Whether a redirect URI can be registered: it uses HTTP(S), names a host and has no fragment.
pub fn validate_redirect_uri(uri: &str) -> (r: Result<(), &'static str>)
    ensures
        match r {
            Ok(_) => redirect_uri_error(uri@) is None,
            Err(why) => redirect_uri_error(uri@) == Some(why@),
        },
{
    if uri.unicode_len() == 0 {
        return Err("must not be empty");
    }
    if !(starts_with(uri, "https://") || starts_with(uri, "http://")) {
        return Err("must use http(s) scheme");
    }
    if same(uri, "https://") || same(uri, "http://") {
        return Err("missing host after scheme");
    }
    if contains(uri, "#") {
        return Err("must not contain a URI fragment per RFC 6749 §3.1.2");
    }
    Ok(())
}

/// A client id: a random UUID.
pub fn generate_client_id() -> (r: String)
    ensures
        chance::is_uuid(r@),
{
    new_uuid()
}

/// A client secret: 32 random bytes in URL-safe base64.
pub fn generate_client_secret() -> (r: String)
    ensures
        exists|bytes: Seq<u8>| bytes.len() == 32 && r@ == #[trigger] codec::b64url(bytes),
        r@.len() == 43,
        forall|i: int| 0 <= i < r@.len() ==> codec::is_url_safe(#[trigger] r@[i]),
{
    let bytes = random_bytes(32);
    b64url_encode(bytes.as_slice())
}

/// The digest of a secret under a salt.
pub open spec fn salted_digest(salt: Seq<u8>, secret: Seq<char>) -> Seq<u8> {
    codec::sha256(salt + codec::utf8(secret))
}

/// What is kept of a secret under a salt.
pub open spec fn secret_record(salt: Seq<u8>, secret: Seq<char>) -> Seq<char> {
    codec::b64url(salt) + ":"@ + codec::b64url(salted_digest(salt, secret))
}

/// The two parts of a record around its first colon.
pub open spec fn record_parts(stored: Seq<char>) -> Option<(Seq<char>, Seq<char>)> {
    match text::find(stored, ":"@) {
        Some(i) => Some((stored.take(i), stored.skip(i + 1))),
        None => None,
    }
}

/// Whether a secret is the one behind a record.
pub open spec fn secret_matches(provided: Seq<char>, stored: Seq<char>) -> bool {
    match record_parts(stored) {
        None => false,
        Some((salt, expect)) => match (
            codec::b64url_decoded(salt),
            codec::b64url_decoded(expect),
        ) {
            (Some(s), Some(e)) => salted_digest(s, provided) == e,
            _ => false,
        },
    }
}

fn digest_with_salt(salt: &[u8], secret: &str) -> (r: Vec<u8>)
    ensures
        r@ == salted_digest(salt@, secret@),
{
    let mut data: Vec<u8> = Vec::new();
    data.extend_from_slice(salt);
    data.extend_from_slice(secret.as_bytes());
    assert(data@ =~= salt@ + codec::utf8(secret@));
    sha256_of(data.as_slice())
}

proof fn lemma_first_colon(head: Seq<char>, tail: Seq<char>, from: int)
    requires
        0 <= from <= head.len(),
        forall|i: int| 0 <= i < head.len() ==> #[trigger] head[i] != ':',
    ensures
        text::find_from(head + ":"@ + tail, ":"@, from) == Some(head.len() as int),
    decreases head.len() - from,
{
    reveal_strlit(":");
    let s = head + ":"@ + tail;
    assert(s.subrange(from, from + 1)[0] == s[from]);
    if from < head.len() {
        assert(s[from] == head[from]);
        assert(!text::occurs_at(s, ":"@, from));
        lemma_first_colon(head, tail, from + 1);
    } else {
        assert(s.subrange(from, from + 1) =~= ":"@);
    }
}

/// What is kept of a secret under a given salt.  The secret matches the record, and another one
/// only where their salted digests are the same.
pub fn hash_secret_with(secret: &str, salt: &[u8]) -> (r: String)
    ensures
        r@ == secret_record(salt@, secret@),
        secret_matches(secret@, r@),
        forall|other: Seq<char>| #[trigger]
            secret_matches(other, r@) <==> salted_digest(salt@, other) == salted_digest(
                salt@,
                secret@,
            ),
{
    let digest = digest_with_salt(salt, secret);
    let head = b64url_encode(salt);
    let tail = b64url_encode(digest.as_slice());
    let mut out = head.clone();
    out.append(":");
    out.append(tail.as_str());
    proof {
        assert forall|i: int| 0 <= i < head@.len() implies #[trigger] head@[i] != ':' by {
            assert(codec::is_url_safe(head@[i]));
        }
        lemma_first_colon(head@, tail@, 0);
        reveal_strlit(":");
        assert(out@.take(head@.len() as int) =~= head@);
        assert(out@.skip(head@.len() as int + 1) =~= tail@);
    }
    out
}

/// What is kept of a secret, under a random salt.
pub fn hash_secret(secret: &str) -> (r: String)
    ensures
        secret_matches(secret@, r@),
        exists|salt: Seq<u8>| salt.len() == 16 && r@ == #[trigger] secret_record(salt, secret@),
{
    let salt = random_bytes(16);
    hash_secret_with(secret, salt.as_slice())
}

/// Whether a secret is the one behind a record.  No secret matches a malformed record.
pub fn verify_secret(provided: &str, stored_hash: &str) -> (r: bool)
    ensures
        r == secret_matches(provided@, stored_hash@),
{
    proof {
        reveal_strlit(":");
    }
    let chars = chars_of(stored_hash);
    let colon = chars_of(":");
    let at: usize = match find_chars(&chars, &colon, 0) {
        Some(i) => i,
        None => {
            return false;
        },
    };
    let salt_b64 = string_of(&chars, 0, at);
    let expect_b64 = string_of(&chars, at + 1, chars.len());
    assert(salt_b64@ =~= stored_hash@.take(at as int));
    assert(expect_b64@ =~= stored_hash@.skip(at + 1));
    let salt = match b64url_decode(salt_b64.as_str()) {
        Some(salt) => salt,
        None => {
            return false;
        },
    };
    let expect = match b64url_decode(expect_b64.as_str()) {
        Some(expect) => expect,
        None => {
            return false;
        },
    };
    let got = digest_with_salt(salt.as_slice(), provided);
    constant_time_eq(got.as_slice(), expect.as_slice())
}

/// The registered clients, in the order in which they came.
pub struct ClientStore {
    clients: Vec<OAuthClient>,
}

/// Result of a registration: the only place where the plain secret is.
#[derive(Debug)]
pub struct RegisteredClient {
    pub client_id: String,
    pub client_secret: String,
    pub client: OAuthClient,
}

pub open spec fn clients_view(clients: Seq<OAuthClient>) -> Seq<ClientV> {
    clients.map_values(|c: OAuthClient| c@)
}

/// Where the first client with an id stands.
pub open spec fn position_of(clients: Seq<ClientV>, client_id: Seq<char>, from: int) -> Option<int>
    decreases clients.len() - from,
{
    if from < 0 || from >= clients.len() {
        None
    } else if clients[from].client_id == client_id {
        Some(from)
    } else {
        position_of(clients, client_id, from + 1)
    }
}

/// The clients but for those with an id.
pub open spec fn without_client(clients: Seq<ClientV>, client_id: Seq<char>) -> Seq<ClientV>
    decreases clients.len(),
{
    if clients.len() == 0 {
        seq![]
    } else if clients.last().client_id == client_id {
        without_client(clients.drop_last(), client_id)
    } else {
        without_client(clients.drop_last(), client_id).push(clients.last())
    }
}

/// A client that was just registered.
pub open spec fn fresh_client(
    client_id: Seq<char>,
    name: Seq<char>,
    source: ClientSource,
    redirect_uris: Seq<Seq<char>>,
    secret_hash: Seq<char>,
    now: i64,
) -> ClientV {
    ClientV {
        client_id,
        name,
        source,
        secret_hash,
        redirect_uris,
        created_at: now,
        last_seen_at: None,
    }
}

/// A revoked client is gone, and no other client is.
pub proof fn law_revoked_client_is_gone(
    clients: Seq<ClientV>,
    client_id: Seq<char>,
    other: ClientV,
)
    ensures
        without_client(clients, client_id).contains(other) <==> clients.contains(other)
            && other.client_id != client_id,
    decreases clients.len(),
{
    let rest = without_client(clients, client_id);
    if clients.len() > 0 {
        let init = clients.drop_last();
        let kept = without_client(init, client_id);
        law_revoked_client_is_gone(init, client_id, other);
        if clients.contains(other) {
            let i = choose|i: int| 0 <= i < clients.len() && clients[i] == other;
            if i < init.len() {
                assert(init[i] == other);
            }
        }
        if init.contains(other) {
            let i = choose|i: int| 0 <= i < init.len() && init[i] == other;
            assert(clients[i] == other);
        }
        assert(clients[clients.len() - 1] == clients.last());
        if clients.last().client_id != client_id {
            assert(rest == kept.push(clients.last()));
            assert(rest[kept.len() as int] == clients.last());
            if kept.contains(other) {
                let i = choose|i: int| 0 <= i < kept.len() && kept[i] == other;
                assert(rest[i] == other);
            }
            if rest.contains(other) {
                let i = choose|i: int| 0 <= i < rest.len() && rest[i] == other;
                if i < kept.len() {
                    assert(kept[i] == other);
                }
            }
        }
    }
}

proof fn lemma_without_client_len(clients: Seq<ClientV>, client_id: Seq<char>)
    ensures
        without_client(clients, client_id).len() <= clients.len(),
        without_client(clients, client_id).len() == clients.len() <==> position_of(
            clients,
            client_id,
            0,
        ) is None,
    decreases clients.len(),
{
    lemma_position(clients, client_id, 0);
    if clients.len() > 0 {
        let init = clients.drop_last();
        lemma_without_client_len(init, client_id);
        lemma_position(init, client_id, 0);
        if position_of(clients, client_id, 0) is None {
            assert(clients[clients.len() - 1].client_id != client_id);
            if position_of(init, client_id, 0) is Some {
                let i = position_of(init, client_id, 0)->0;
                assert(clients[i] == init[i]);
            }
        } else {
            let i = position_of(clients, client_id, 0)->0;
            if i < init.len() {
                assert(init[i] == clients[i]);
            }
        }
    }
}

proof fn lemma_position(clients: Seq<ClientV>, client_id: Seq<char>, from: int)
    requires
        0 <= from,
    ensures
        match position_of(clients, client_id, from) {
            Some(i) => from <= i < clients.len() && clients[i].client_id == client_id,
            None => forall|i: int|
                from <= i < clients.len() ==> (#[trigger] clients[i]).client_id != client_id,
        },
    decreases clients.len() - from,
{
    if from < clients.len() && clients[from].client_id != client_id {
        lemma_position(clients, client_id, from + 1);
    }
}

impl ClientStore {
    /// The clients, in the order in which they came.
    pub closed spec fn view(&self) -> Seq<ClientV> {
        clients_view(self.clients@)
    }

    /// A store with the clients that were read from disk.
    pub fn new(clients: Vec<OAuthClient>) -> (r: Self)
        ensures
            r@ == clients_view(clients@),
    {
        ClientStore { clients }
    }

    /// A copy of every client.
    pub fn list(&self) -> (r: Vec<OAuthClient>)
        ensures
            clients_view(r@) == self@,
    {
        let mut out: Vec<OAuthClient> = Vec::new();
        let mut i: usize = 0;
        while i < self.clients.len()
            invariant
                i <= self.clients.len(),
                out.len() == i,
                forall|k: int| 0 <= k < i ==> (#[trigger] out@[k])@ == self.clients@[k]@,
            decreases self.clients.len() - i,
        {
            out.push(self.clients[i].copy());
            i = i + 1;
        }
        assert(clients_view(out@) =~= self@);
        out
    }

    fn position(&self, client_id: &str) -> (r: Option<usize>)
        ensures
            match r {
                Some(i) => position_of(self@, client_id@, 0) == Some(i as int) && i
                    < self.clients.len(),
                None => position_of(self@, client_id@, 0) is None,
            },
    {
        let mut i: usize = 0;
        while i < self.clients.len()
            invariant
                i <= self.clients.len(),
                position_of(self@, client_id@, 0) == position_of(self@, client_id@, i as int),
            decreases self.clients.len() - i,
        {
            if same(self.clients[i].client_id.as_str(), client_id) {
                return Some(i);
            }
            i = i + 1;
        }
        None
    }

    /// The first client with an id.
    pub fn find(&self, client_id: &str) -> (r: Option<&OAuthClient>)
        ensures
            match r {
                Some(c) => position_of(self@, client_id@, 0) matches Some(i) && c@ == self@[i],
                None => position_of(self@, client_id@, 0) is None,
            },
    {
        match self.position(client_id) {
            Some(i) => Some(&self.clients[i]),
            None => None,
        }
    }

    /// Registers a client under a given id, with a given secret and salt.
    pub fn register_at(
        &mut self,
        name: &str,
        source: ClientSource,
        redirect_uris: Vec<String>,
        client_id: String,
        client_secret: String,
        salt: &[u8],
        now: i64,
    ) -> (r: RegisteredClient)
        ensures
            r.client@ == fresh_client(
                client_id@,
                name@,
                source,
                text::texts(redirect_uris@),
                secret_record(salt@, client_secret@),
                now,
            ),
            r.client_id@ == client_id@,
            r.client_secret@ == client_secret@,
            secret_matches(client_secret@, r.client@.secret_hash),
            final(self)@ == old(self)@.push(r.client@),
    {
        let secret_hash = hash_secret_with(client_secret.as_str(), salt);
        let entry = OAuthClient {
            client_id: client_id.clone(),
            name: name.to_owned(),
            source,
            secret_hash,
            redirect_uris,
            created_at: now,
            last_seen_at: None,
        };
        self.clients.push(entry.copy());
        assert(self@ =~= old(self)@.push(entry@));
        RegisteredClient { client_id, client_secret, client: entry }
    }

    /// Registers a client under a fresh id with a fresh secret, which matches what is kept of it.
    pub fn register(&mut self, name: &str, source: ClientSource, redirect_uris: Vec<String>) -> (r:
        RegisteredClient)
        ensures
            r.client@ == fresh_client(
                r.client_id@,
                name@,
                source,
                text::texts(redirect_uris@),
                r.client@.secret_hash,
                r.client@.created_at,
            ),
            chance::is_uuid(r.client_id@),
            exists|bytes: Seq<u8>|
                bytes.len() == 32 && r.client_secret@ == #[trigger] codec::b64url(bytes),
            exists|salt: Seq<u8>|
                salt.len() == 16 && r.client@.secret_hash == #[trigger] secret_record(
                    salt,
                    r.client_secret@,
                ),
            secret_matches(r.client_secret@, r.client@.secret_hash),
            final(self)@ == old(self)@.push(r.client@),
    {
        let client_id = generate_client_id();
        let client_secret = generate_client_secret();
        let salt = random_bytes(16);
        let now: i64 = now_nanos();
        self.register_at(
            name,
            source,
            redirect_uris,
            client_id,
            client_secret,
            salt.as_slice(),
            now,
        )
    }

    /// Drops every client with an id, and tells whether there was one.
    pub fn revoke(&mut self, client_id: &str) -> (r: bool)
        ensures
            final(self)@ == without_client(old(self)@, client_id@),
            r == (position_of(old(self)@, client_id@, 0) is Some),
    {
        let ghost before = self@;
        let mut kept: Vec<OAuthClient> = Vec::new();
        let mut i: usize = 0;
        assert(before.take(0) =~= seq![]);
        while i < self.clients.len()
            invariant
                i <= self.clients.len(),
                before == clients_view(self.clients@),
                kept.len() <= i,
                clients_view(kept@) == without_client(before.take(i as int), client_id@),
            decreases self.clients.len() - i,
        {
            assert(before.take(i + 1).drop_last() =~= before.take(i as int));
            assert(before.take(i + 1).last() == self.clients@[i as int]@);
            if !same(self.clients[i].client_id.as_str(), client_id) {
                let ghost k0 = clients_view(kept@);
                kept.push(self.clients[i].copy());
                assert(clients_view(kept@) =~= k0.push(self.clients@[i as int]@));
            }
            i = i + 1;
        }
        proof {
            assert(before.take(before.len() as int) =~= before);
            lemma_without_client_len(before, client_id@);
        }
        let removed = kept.len() != self.clients.len();
        self.clients = kept;
        removed
    }

    /// Stamps the first client with an id as seen, and tells whether there is one.
    pub fn touch_at(&mut self, client_id: &str, now: i64) -> (r: bool)
        ensures
            match position_of(old(self)@, client_id@, 0) {
                Some(i) => r && final(self)@ == old(self)@.update(
                    i,
                    ClientV { last_seen_at: Some(now), ..old(self)@[i] },
                ),
                None => !r && final(self)@ == old(self)@,
            },
    {
        match self.position(client_id) {
            Some(i) => {
                let mut c = self.clients[i].copy();
                c.last_seen_at = Some(now);
                let ghost cv = c@;
                self.clients.set(i, c);
                assert(self@ =~= old(self)@.update(i as int, cv));
                true
            },
            None => false,
        }
    }

    /// Stamps the first client with an id as seen now.
    pub fn touch(&mut self, client_id: &str) -> (r: bool)
        ensures
            match position_of(old(self)@, client_id@, 0) {
                Some(i) => r && exists|now: i64| final(self)@ == #[trigger] stamped(
                    old(self)@,
                    i,
                    now,
                ),
                None => !r && final(self)@ == old(self)@,
            },
    {
        let now: i64 = now_nanos();
        let r = self.touch_at(client_id, now);
        proof {
            if let Some(i) = position_of(old(self)@, client_id@, 0) {
                assert(self@ == stamped(old(self)@, i, now));
            }
        }
        r
    }
}

/// The clients with one of them seen at an instant.
pub open spec fn stamped(clients: Seq<ClientV>, i: int, now: i64) -> Seq<ClientV> {
    clients.update(i, ClientV { last_seen_at: Some(now), ..clients[i] })
}

// ── More laws ───────────────────────────────────────────────────────────

/// A client that registers is known by its id afterwards, as it registered; the others stay as
/// they were.
pub proof fn law_registered_client_is_found(
    clients: Seq<ClientV>,
    client_id: Seq<char>,
    name: Seq<char>,
    source: ClientSource,
    redirect_uris: Seq<Seq<char>>,
    secret_hash: Seq<char>,
    now: i64,
    other: Seq<char>,
)
    requires
        position_of(clients, client_id, 0) is None,
    ensures
        ({
            let c = fresh_client(client_id, name, source, redirect_uris, secret_hash, now);
            let after = clients.push(c);
            &&& position_of(after, client_id, 0) matches Some(i) && {
                &&& after[i].client_id == client_id
                &&& after[i].name == name
                &&& after[i].source == source
                &&& after[i].redirect_uris == redirect_uris
                &&& after[i].secret_hash == secret_hash
                &&& after[i].created_at == now
                &&& after[i].last_seen_at is None
            }
            &&& other != client_id ==> position_of(after, other, 0) == position_of(
                clients,
                other,
                0,
            )
        }),
{
    let c = fresh_client(client_id, name, source, redirect_uris, secret_hash, now);
    lemma_position(clients, client_id, 0);
    lemma_position_of_push(clients, c, client_id, 0);
    lemma_position_of_push(clients, c, other, 0);
}

proof fn lemma_position_of_push(clients: Seq<ClientV>, c: ClientV, client_id: Seq<char>, from: int)
    requires
        0 <= from <= clients.len(),
    ensures
        position_of(clients.push(c), client_id, from) == (match position_of(
            clients,
            client_id,
            from,
        ) {
            Some(i) => Some(i),
            None => if c.client_id == client_id {
                Some(clients.len() as int)
            } else {
                None
            },
        }),
    decreases clients.len() - from,
{
    let after = clients.push(c);
    if from < clients.len() {
        assert(after[from] == clients[from]);
        lemma_position_of_push(clients, c, client_id, from + 1);
    } else {
        assert(after[from] == c);
        assert(position_of(after, client_id, from + 1) is None);
    }
}

/// An address to return to is an HTTP one with something behind the scheme and without a fragment.
pub proof fn law_redirect_address_is_checked(uri: Seq<char>)
    ensures
        redirect_uri_error(uri) is None <==> {
            &&& text::has_prefix(uri, "https://"@) || text::has_prefix(uri, "http://"@)
            &&& uri != "https://"@ && uri != "http://"@
            &&& !text::has_infix(uri, "#"@)
        },
{
    reveal_strlit("https://");
    reveal_strlit("http://");
    assert("https://"@.len() == 8);
    assert("http://"@.len() == 7);
}

/// A secret is stored as a salted digest: two secrets match the same record only where their
/// digests with its salt are equal.
pub proof fn law_secret_is_known_by_its_digest(salt: Seq<u8>, a: Seq<char>, b: Seq<char>)
    ensures
        salted_digest(salt, a) == codec::sha256(salt + codec::utf8(a)),
        secret_record(salt, a) == secret_record(salt, b) || salted_digest(salt, a) != salted_digest(
            salt,
            b,
        ),
{
}

/// A secret is known by its record: one that is presented matches where its salted digest is that
/// of the one that was registered.
pub proof fn law_registered_secret_is_known(salt: Seq<u8>, secret: Seq<char>, presented: Seq<char>)
    requires
        codec::b64url_decoded(codec::b64url(salt)) == Some(salt),
        codec::b64url_decoded(codec::b64url(salted_digest(salt, secret))) == Some(
            salted_digest(salt, secret),
        ),
        !codec::b64url(salt).contains(':'),
    ensures
        secret_matches(secret, secret_record(salt, secret)),
        secret_matches(presented, secret_record(salt, secret)) <==> codec::sha256(
            salt + codec::utf8(presented),
        ) == codec::sha256(salt + codec::utf8(secret)),
{
    reveal_strlit(":");
    let head = codec::b64url(salt);
    let tail = codec::b64url(salted_digest(salt, secret));
    let s = secret_record(salt, secret);
    let n = head.len() as int;
    assert(s.subrange(n, n + 1) =~= ":"@);
    assert(text::occurs_at(s, ":"@, n));
    text::lemma_find_from(s, ":"@, 0);
    let i = text::find(s, ":"@)->0;
    if i < n {
        assert(s.subrange(i, i + 1)[0] == ":"@[0]);
        assert(head[i] == ':');
    }
    assert(s.take(n) =~= head);
    assert(s.skip(n + 1) =~= tail);
}

/// A record without a salt matches nothing.
pub proof fn law_broken_record_matches_nothing(stored: Seq<char>, presented: Seq<char>)
    requires
        !text::has_infix(stored, ":"@),
    ensures
        !secret_matches(presented, stored),
{
    text::lemma_find_from(stored, ":"@, 0);
    if let Some(i) = text::find(stored, ":"@) {
        assert(text::occurs_at(stored, ":"@, i));
    }
}

/// A client that was seen is noted with the time, and nothing else changes.
pub proof fn law_seen_client_is_noted(clients: Seq<ClientV>, i: int, k: int, now: i64)
    requires
        0 <= i < clients.len(),
        0 <= k < clients.len(),
    ensures
        stamped(clients, i, now).len() == clients.len(),
        stamped(clients, i, now)[i] == (ClientV { last_seen_at: Some(now), ..clients[i] }),
        k != i ==> stamped(clients, i, now)[k] == clients[k],
{
}

} // verus!
