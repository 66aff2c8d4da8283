//! Access tokens, which live in memory, and refresh tokens, which are kept.

use vstd::prelude::*;
use vstd::string::*;

use crate::chance;
use crate::chance::later_than;
use crate::chance::now_nanos;
use crate::chance::random_bytes;
use crate::chance::rfc3339_of;
use crate::codec;
use crate::codec::b64url_encode;
use crate::codec::hex_lower;
use crate::codec::same_secret;
use crate::codec::sha256_hex;
use crate::paths;
use crate::paths::join_path;
use crate::plugin::config;
use crate::plugin::config::state_dir;
use crate::strmap;
use crate::strmap::StrMap;
use crate::text;
use crate::text::copy_opt;
use crate::text::same;

verus! {

/// How long an access token is valid: one hour, in nanoseconds.
pub const ACCESS_TTL: i64 = 3_600_000_000_000;

/// One access token, kept under the digest of its text.
#[derive(Debug)]
pub struct AccessToken {
    /// The refresh token that it was minted with.
    pub origin_token_id: String,
    pub client_id: String,
    pub scope: Option<String>,
    /// Nanoseconds since 1970.
    pub expires_at: i64,
}

pub ghost struct AccessV {
    pub origin_token_id: Seq<char>,
    pub client_id: Seq<char>,
    pub scope: Option<Seq<char>>,
    pub expires_at: i64,
}

impl AccessToken {
    pub open spec fn view(&self) -> AccessV {
        AccessV {
            origin_token_id: self.origin_token_id@,
            client_id: self.client_id@,
            scope: text::opt_text(self.scope),
            expires_at: self.expires_at,
        }
    }
}

/// One refresh token.
#[derive(Debug)]
pub struct RefreshToken {
    /// The handle that operators see.
    pub token_id: String,
    /// The digest of the token's text, in hexadecimal.
    pub token_hash: String,
    pub client_id: String,
    pub scope: Option<String>,
    pub created_at: i64,
    pub last_used_at: Option<i64>,
}

pub ghost struct RefreshV {
    pub token_id: Seq<char>,
    pub token_hash: Seq<char>,
    pub client_id: Seq<char>,
    pub scope: Option<Seq<char>>,
    pub created_at: i64,
    pub last_used_at: Option<i64>,
}

impl RefreshToken {
    pub open spec fn view(&self) -> RefreshV {
        RefreshV {
            token_id: self.token_id@,
            token_hash: self.token_hash@,
            client_id: self.client_id@,
            scope: text::opt_text(self.scope),
            created_at: self.created_at,
            last_used_at: self.last_used_at,
        }
    }

    pub fn copy(&self) -> (r: RefreshToken)
        ensures
            r == *self,
    {
        RefreshToken {
            token_id: self.token_id.clone(),
            token_hash: self.token_hash.clone(),
            client_id: self.client_id.clone(),
            scope: copy_opt(&self.scope),
            created_at: self.created_at,
            last_used_at: self.last_used_at,
        }
    }
}

/// A refresh token as an admin listing shows it: without its digest.
#[derive(Debug)]
pub struct RefreshTokenView {
    pub token_id: String,
    pub client_id: String,
    pub scope: Option<String>,
    pub created_at: String,
    pub last_used_at: Option<String>,
    /// How many live access tokens were minted with it.
    pub active_access_tokens: usize,
}

/// Path of the refresh tokens of an agent instance.
pub fn tokens_path(home: Option<&str>, agent_name: &str) -> (r: String)
    ensures
        r@ == paths::joined_path(
            paths::joined_path(config::state_path(text::opt_slice(home), agent_name@), "oauth"@),
            "tokens.toml"@,
        ),
{
    let dir = state_dir(home, agent_name);
    let oauth = join_path(dir.as_str(), "oauth");
    join_path(oauth.as_str(), "tokens.toml")
}

/// A freshly minted pair: the only place where the plain tokens are.
#[derive(Debug)]
pub struct MintedTokens {
    pub access_token: String,
    pub refresh_token: String,
    pub token_id: String,
    pub access_expires_at: i64,
    pub scope: Option<String>,
}

/// The tokens of a daemon: the refresh tokens by their ids, the access tokens by their digests.
pub ghost struct TokensV {
    pub refresh: Map<Seq<char>, RefreshV>,
    pub access: Map<Seq<char>, AccessV>,
}

/// What is kept of a token's text.
pub open spec fn digest_of(plain: Seq<char>) -> Seq<char> {
    codec::hex(codec::sha256(codec::utf8(plain)))
}

/// The tokens with a new pair.
pub open spec fn minted(
    s: TokensV,
    client_id: Seq<char>,
    scope: Option<Seq<char>>,
    now: i64,
    token_id: Seq<char>,
    access_plain: Seq<char>,
    refresh_plain: Seq<char>,
) -> TokensV {
    TokensV {
        access: s.access.insert(
            digest_of(access_plain),
            AccessV {
                origin_token_id: token_id,
                client_id,
                scope,
                expires_at: chance::later(now, ACCESS_TTL as int) as i64,
            },
        ),
        refresh: s.refresh.insert(
            token_id,
            RefreshV {
                token_id,
                token_hash: digest_of(refresh_plain),
                client_id,
                scope,
                created_at: now,
                last_used_at: None,
            },
        ),
    }
}

/// The tokens without a refresh token and without the access tokens that were minted with it.
pub open spec fn without_token(s: TokensV, token_id: Seq<char>) -> TokensV {
    TokensV {
        refresh: s.refresh.remove(token_id),
        access: strmap::filtered(s.access, |a: AccessV| a.origin_token_id != token_id),
    }
}

/// The tokens without those of a client.
pub open spec fn without_client(s: TokensV, client_id: Seq<char>) -> TokensV {
    TokensV {
        refresh: strmap::filtered(s.refresh, |t: RefreshV| t.client_id != client_id),
        access: strmap::filtered(s.access, |a: AccessV| a.client_id != client_id),
    }
}

/// The tokens without the access tokens that have expired.
pub open spec fn swept(s: TokensV, now: i64) -> TokensV {
    TokensV { access: strmap::filtered(s.access, |a: AccessV| now < a.expires_at), ..s }
}

/// What a presented access token gives at an instant.
pub open spec fn verified(s: TokensV, presented: Seq<char>, now: i64) -> Option<AccessV> {
    let key = digest_of(presented);
    if s.access.dom().contains(key) && now < s.access[key].expires_at {
        Some(s.access[key])
    } else {
        None
    }
}

/// A refresh token whose text was presented.
pub open spec fn presents(s: TokensV, presented: Seq<char>, token_id: Seq<char>) -> bool {
    s.refresh.dom().contains(token_id) && s.refresh[token_id].token_hash == digest_of(presented)
}

/// The live access tokens that were minted with a refresh token.
pub open spec fn live_access(s: TokensV, token_id: Seq<char>, now: i64) -> Map<
    Seq<char>,
    AccessV,
> {
    strmap::filtered(s.access, |a: AccessV| a.origin_token_id == token_id && now < a.expires_at)
}

/// `v` shows a refresh token at an instant.
pub open spec fn shows(v: RefreshTokenView, s: TokensV, token_id: Seq<char>, now: i64) -> bool {
    let t = s.refresh[token_id];
    &&& v.token_id@ == token_id
    &&& v.client_id@ == t.client_id
    &&& text::opt_text(v.scope) == t.scope
    &&& v.created_at@ == chance::rfc3339(t.created_at)
    &&& match t.last_used_at {
        Some(at) => v.last_used_at matches Some(shown) && shown@ == chance::rfc3339(at),
        None => v.last_used_at is None,
    }
    &&& v.active_access_tokens == live_access(s, token_id, now).dom().len()
}

/// The views show every refresh token once, ordered by their ids.
pub open spec fn lists(views: Seq<RefreshTokenView>, s: TokensV, now: i64) -> bool {
    exists|ids: Seq<Seq<char>>|
        {
            &&& #[trigger] text::in_order(ids)
            &&& ids.no_duplicates()
            &&& ids.to_set() == s.refresh.dom()
            &&& ids.len() == views.len()
            &&& forall|i: int| 0 <= i < ids.len() ==> shows(#[trigger] views[i], s, ids[i], now)
        }
}

/// Every refresh token stands under its own id.
pub open spec fn keyed(refresh: Map<Seq<char>, RefreshV>) -> bool {
    forall|id: Seq<char>| #[trigger]
        refresh.dom().contains(id) ==> refresh[id].token_id == id
}

/// Every access token was minted with a refresh token that is still there, for the same client.
pub open spec fn rooted(s: TokensV) -> bool {
    forall|key: Seq<char>| #[trigger]
        s.access.dom().contains(key) ==> {
            let a = s.access[key];
            s.refresh.dom().contains(a.origin_token_id)
                && s.refresh[a.origin_token_id].client_id == a.client_id
        }
}

// ── Laws ────────────────────────────────────────────────────────────────

/// A minted access token is accepted exactly until it expires, for its client and scope.
pub proof fn law_minted_access_is_accepted_until_expiry(
    s: TokensV,
    client_id: Seq<char>,
    scope: Option<Seq<char>>,
    now: i64,
    token_id: Seq<char>,
    access_plain: Seq<char>,
    refresh_plain: Seq<char>,
    at: i64,
)
    ensures
        ({
            let after = minted(s, client_id, scope, now, token_id, access_plain, refresh_plain);
            let got = verified(after, access_plain, at);
            &&& got is Some <==> at < chance::later(now, ACCESS_TTL as int)
            &&& got matches Some(a) ==> a.client_id == client_id && a.scope == scope
            &&& presents(after, refresh_plain, token_id)
        }),
{
}

/// Revoking a refresh token revokes the access tokens that were minted with it, and no others.
pub proof fn law_revocation_cascades(s: TokensV, token_id: Seq<char>, presented: Seq<char>, now: i64)
    ensures
        verified(without_token(s, token_id), presented, now) == match verified(s, presented, now) {
            Some(a) => if a.origin_token_id == token_id {
                None
            } else {
                Some(a)
            },
            None => None,
        },
        !without_token(s, token_id).refresh.dom().contains(token_id),
        forall|other: Seq<char>|
            other != token_id ==> (#[trigger] without_token(s, token_id).refresh.dom().contains(
                other,
            ) <==> s.refresh.dom().contains(other)),
{
}

/// After the tokens of a client are revoked none of them is accepted, and those of other clients
/// are as before.
pub proof fn law_client_revocation_is_complete(
    s: TokensV,
    client_id: Seq<char>,
    presented: Seq<char>,
    token_id: Seq<char>,
    now: i64,
)
    ensures
        verified(without_client(s, client_id), presented, now) == match verified(
            s,
            presented,
            now,
        ) {
            Some(a) => if a.client_id == client_id {
                None
            } else {
                Some(a)
            },
            None => None,
        },
        presents(without_client(s, client_id), presented, token_id) <==> presents(
            s,
            presented,
            token_id,
        ) && s.refresh[token_id].client_id != client_id,
{
}

/// A sweep changes nothing that anyone could still use.
pub proof fn law_sweep_keeps_live_tokens(s: TokensV, now: i64, presented: Seq<char>, at: i64)
    requires
        now <= at,
    ensures
        verified(swept(s, now), presented, at) == verified(s, presented, at),
        swept(s, now).refresh == s.refresh,
{
}

/// A refresh token that was rotated can not be presented again, where no other record has its
/// digest and the new one's digest differs.
pub proof fn law_rotated_refresh_is_dead(
    s: TokensV,
    old_id: Seq<char>,
    presented: Seq<char>,
    client_id: Seq<char>,
    scope: Option<Seq<char>>,
    now: i64,
    token_id: Seq<char>,
    access_plain: Seq<char>,
    refresh_plain: Seq<char>,
    other: Seq<char>,
)
    requires
        forall|id: Seq<char>| presents(s, presented, id) ==> id == old_id,
        digest_of(refresh_plain) != digest_of(presented),
    ensures
        !presents(
            minted(
                without_token(s, old_id),
                client_id,
                scope,
                now,
                token_id,
                access_plain,
                refresh_plain,
            ),
            presented,
            other,
        ),
{
    if presents(
        minted(
            without_token(s, old_id),
            client_id,
            scope,
            now,
            token_id,
            access_plain,
            refresh_plain,
        ),
        presented,
        other,
    ) {
        assert(presents(s, presented, other));
    }
}

/// A rotation puts a new pair in the place of the presented one: the old access token is accepted
/// no more and the old refresh token can not be presented again, the new access token is accepted
/// for the same client and scope until it expires, and the tokens of other ids are as they were.
/// This is where the new texts' digests are not those of the old ones.
pub proof fn law_rotation_replaces_the_pair(
    s: TokensV,
    client_id: Seq<char>,
    scope: Option<Seq<char>>,
    first: i64,
    old_id: Seq<char>,
    old_access: Seq<char>,
    old_refresh: Seq<char>,
    second: i64,
    new_id: Seq<char>,
    new_access: Seq<char>,
    new_refresh: Seq<char>,
    at: i64,
    other: Seq<char>,
)
    requires
        forall|id: Seq<char>| !presents(s, old_refresh, id),
        digest_of(new_access) != digest_of(old_access),
        digest_of(new_refresh) != digest_of(old_refresh),
    ensures
        ({
            let before = minted(s, client_id, scope, first, old_id, old_access, old_refresh);
            let after = minted(
                without_token(before, old_id),
                client_id,
                before.refresh[old_id].scope,
                second,
                new_id,
                new_access,
                new_refresh,
            );
            &&& presents(before, old_refresh, old_id)
            &&& verified(after, old_access, at) is None
            &&& !presents(after, old_refresh, other)
            &&& verified(after, new_access, at) is Some <==> at < chance::later(
                second,
                ACCESS_TTL as int,
            )
            &&& verified(after, new_access, at) matches Some(a) ==> a.client_id == client_id
                && a.scope == scope && a.origin_token_id == new_id
            &&& other != old_id && other != new_id ==> (after.refresh.dom().contains(other)
                <==> s.refresh.dom().contains(other)) && (s.refresh.dom().contains(other)
                ==> after.refresh[other] == s.refresh[other])
        }),
{
    let before = minted(s, client_id, scope, first, old_id, old_access, old_refresh);
    let after = minted(
        without_token(before, old_id),
        client_id,
        before.refresh[old_id].scope,
        second,
        new_id,
        new_access,
        new_refresh,
    );
    if presents(after, old_refresh, other) {
        assert(presents(s, old_refresh, other));
    }
}

/// A listing is ordered by the ids that it shows, and shows each refresh token exactly once.
pub proof fn law_listing_is_ordered_by_id(views: Seq<RefreshTokenView>, s: TokensV, now: i64)
    requires
        lists(views, s, now),
    ensures
        ({
            let shown = Seq::new(views.len(), |i: int| views[i].token_id@);
            &&& text::in_order(shown)
            &&& shown.no_duplicates()
            &&& shown.to_set() == s.refresh.dom()
            &&& forall|i: int|
                0 <= i < views.len() ==> (#[trigger] views[i]).active_access_tokens == live_access(
                    s,
                    views[i].token_id@,
                    now,
                ).dom().len()
        }),
{
    let ids = choose|ids: Seq<Seq<char>>|
        {
            &&& #[trigger] text::in_order(ids)
            &&& ids.no_duplicates()
            &&& ids.to_set() == s.refresh.dom()
            &&& ids.len() == views.len()
            &&& forall|i: int| 0 <= i < ids.len() ==> shows(#[trigger] views[i], s, ids[i], now)
        };
    let shown = Seq::new(views.len(), |i: int| views[i].token_id@);
    assert(shown =~= ids) by {
        assert forall|i: int| 0 <= i < ids.len() implies shown[i] == ids[i] by {
            assert(shows(views[i], s, ids[i], now));
        }
    }
}

/// No access token outlives its refresh token: every operation keeps each access token rooted in
/// a refresh token of the same client, as long as minted ids are new.
pub proof fn law_access_tokens_stay_rooted(
    s: TokensV,
    client_id: Seq<char>,
    scope: Option<Seq<char>>,
    now: i64,
    token_id: Seq<char>,
    access_plain: Seq<char>,
    refresh_plain: Seq<char>,
    gone: Seq<char>,
)
    requires
        rooted(s),
        !s.refresh.dom().contains(token_id),
    ensures
        rooted(minted(s, client_id, scope, now, token_id, access_plain, refresh_plain)),
        rooted(without_token(s, gone)),
        rooted(without_client(s, gone)),
        rooted(swept(s, now)),
{
    let m = minted(s, client_id, scope, now, token_id, access_plain, refresh_plain);
    assert forall|key: Seq<char>| #[trigger] m.access.dom().contains(key) implies {
        let a = m.access[key];
        m.refresh.dom().contains(a.origin_token_id) && m.refresh[a.origin_token_id].client_id
            == a.client_id
    } by {
        if key != digest_of(access_plain) {
            assert(s.access.dom().contains(key));
        }
    }
    let w = without_token(s, gone);
    assert forall|key: Seq<char>| #[trigger] w.access.dom().contains(key) implies {
        let a = w.access[key];
        w.refresh.dom().contains(a.origin_token_id) && w.refresh[a.origin_token_id].client_id
            == a.client_id
    } by {
        assert(s.access.dom().contains(key));
    }
    let c = without_client(s, gone);
    assert forall|key: Seq<char>| #[trigger] c.access.dom().contains(key) implies {
        let a = c.access[key];
        c.refresh.dom().contains(a.origin_token_id) && c.refresh[a.origin_token_id].client_id
            == a.client_id
    } by {
        assert(s.access.dom().contains(key));
    }
    let t = swept(s, now);
    assert forall|key: Seq<char>| #[trigger] t.access.dom().contains(key) implies {
        let a = t.access[key];
        t.refresh.dom().contains(a.origin_token_id) && t.refresh[a.origin_token_id].client_id
            == a.client_id
    } by {
        assert(s.access.dom().contains(key));
    }
}

// ── Fresh tokens ────────────────────────────────────────────────────────

/// The token id that four random bytes give.
pub open spec fn token_id_text(bytes: Seq<u8>) -> Seq<char> {
    "tok_"@ + codec::hex(bytes)
}

/// The token text that random bytes give, behind a prefix.
pub open spec fn token_text(prefix: Seq<char>, bytes: Seq<u8>) -> Seq<char> {
    prefix + codec::b64url(bytes)
}

/// `tok_` and eight hexadecimal digits.
pub fn generate_token_id() -> (r: String)
    ensures
        exists|bytes: Seq<u8>| bytes.len() == 4 && r@ == #[trigger] token_id_text(bytes),
{
    let bytes = random_bytes(4);
    let mut out = "tok_".to_owned();
    out.append(hex_lower(bytes.as_slice()).as_str());
    assert(out@ == token_id_text(bytes@));
    out
}

fn generate_token(prefix: &str) -> (r: String)
    ensures
        exists|bytes: Seq<u8>| bytes.len() == 32 && r@ == #[trigger] token_text(prefix@, bytes),
{
    let bytes = random_bytes(32);
    let mut out = prefix.to_owned();
    out.append(b64url_encode(bytes.as_slice()).as_str());
    assert(out@ == token_text(prefix@, bytes@));
    out
}

/// `at_` and 32 random bytes in URL-safe base64.
pub fn generate_access_token() -> (r: String)
    ensures
        exists|bytes: Seq<u8>| bytes.len() == 32 && r@ == #[trigger] token_text("at_"@, bytes),
{
    generate_token("at_")
}

/// `rt_` and 32 random bytes in URL-safe base64.
pub fn generate_refresh_token() -> (r: String)
    ensures
        exists|bytes: Seq<u8>| bytes.len() == 32 && r@ == #[trigger] token_text("rt_"@, bytes),
{
    generate_token("rt_")
}

// ── The store ───────────────────────────────────────────────────────────

/// The tokens of one daemon.
pub struct TokenStore {
    refresh_by_id: StrMap<RefreshToken>,
    access_by_hash: StrMap<AccessToken>,
}

spec fn refresh_view(m: Map<Seq<char>, RefreshToken>) -> Map<Seq<char>, RefreshV> {
    Map::new(|k: Seq<char>| m.dom().contains(k), |k: Seq<char>| m[k]@)
}

spec fn access_view(m: Map<Seq<char>, AccessToken>) -> Map<Seq<char>, AccessV> {
    Map::new(|k: Seq<char>| m.dom().contains(k), |k: Seq<char>| m[k]@)
}

/// Refresh tokens by their ids: the last one with an id counts.
pub open spec fn by_id(tokens: Seq<RefreshToken>) -> Map<Seq<char>, RefreshV>
    decreases tokens.len(),
{
    if tokens.len() == 0 {
        Map::empty()
    } else {
        by_id(tokens.drop_last()).insert(tokens.last().token_id@, tokens.last()@)
    }
}

fn has_digest(t: &RefreshToken, digest: &str) -> (r: bool)
    ensures
        r == (t.token_hash@ == digest@),
{
    same_secret(t.token_hash.as_str(), digest)
}

impl TokenStore {
    pub closed spec fn view(&self) -> TokensV {
        TokensV {
            refresh: refresh_view(self.refresh_by_id@),
            access: access_view(self.access_by_hash@),
        }
    }

    #[verifier::type_invariant]
    spec fn well_formed(&self) -> bool {
        forall|id: Seq<char>| #[trigger]
            self.refresh_by_id@.dom().contains(id) ==> self.refresh_by_id@[id].token_id@ == id
    }

    /// A store with the refresh tokens that were read from disk.
    pub fn new(tokens: &[RefreshToken]) -> (r: Self)
        ensures
            r@.refresh == by_id(tokens@),
            r@.access == Map::<Seq<char>, AccessV>::empty(),
            keyed(r@.refresh),
    {
        let mut refresh_by_id: StrMap<RefreshToken> = StrMap::new();
        let mut i: usize = 0;
        assert(refresh_view(refresh_by_id@) =~= by_id(tokens@.take(0)));
        while i < tokens.len()
            invariant
                i <= tokens.len(),
                refresh_view(refresh_by_id@) == by_id(tokens@.take(i as int)),
                forall|id: Seq<char>| #[trigger]
                    refresh_by_id@.dom().contains(id) ==> refresh_by_id@[id].token_id@ == id,
            decreases tokens.len() - i,
        {
            let ghost before = refresh_by_id@;
            assert(tokens@.take(i + 1).drop_last() =~= tokens@.take(i as int));
            refresh_by_id.insert(tokens[i].token_id.as_str(), tokens[i].copy());
            assert(refresh_view(refresh_by_id@) =~= refresh_view(before).insert(
                tokens@[i as int].token_id@,
                tokens@[i as int]@,
            ));
            i = i + 1;
        }
        assert(tokens@.take(i as int) =~= tokens@);
        let r = TokenStore { refresh_by_id, access_by_hash: StrMap::new() };
        assert(r@.access =~= Map::<Seq<char>, AccessV>::empty());
        assert(forall|id: Seq<char>| #[trigger]
            r@.refresh.dom().contains(id) ==> r.refresh_by_id@.dom().contains(id));
        r
    }

    /// Mints a pair from given texts.
    pub fn mint_pair_at(
        &mut self,
        client_id: &str,
        scope: Option<String>,
        now: i64,
        token_id: String,
        access_plain: String,
        refresh_plain: String,
    ) -> (r: MintedTokens)
        ensures
            final(self)@ == minted(
                old(self)@,
                client_id@,
                text::opt_text(scope),
                now,
                token_id@,
                access_plain@,
                refresh_plain@,
            ),
            r.access_token == access_plain,
            r.refresh_token == refresh_plain,
            r.token_id == token_id,
            r.access_expires_at == chance::later(now, ACCESS_TTL as int),
            r.scope == scope,
    {
        proof {
            use_type_invariant(&*self);
        }
        let ghost before = self@;
        let expires_at: i64 = later_than(now, ACCESS_TTL);
        let access_hash = sha256_hex(access_plain.as_str());
        let mut access: StrMap<AccessToken> = StrMap::new();
        std::mem::swap(&mut access, &mut self.access_by_hash);
        access.insert(
            access_hash.as_str(),
            AccessToken {
                origin_token_id: token_id.clone(),
                client_id: client_id.to_owned(),
                scope: copy_opt(&scope),
                expires_at,
            },
        );
        self.access_by_hash = access;
        let refresh = RefreshToken {
            token_id: token_id.clone(),
            token_hash: sha256_hex(refresh_plain.as_str()),
            client_id: client_id.to_owned(),
            scope: copy_opt(&scope),
            created_at: now,
            last_used_at: None,
        };
        let mut refreshes: StrMap<RefreshToken> = StrMap::new();
        std::mem::swap(&mut refreshes, &mut self.refresh_by_id);
        refreshes.insert(token_id.as_str(), refresh);
        self.refresh_by_id = refreshes;
        proof {
            let after = minted(
                before,
                client_id@,
                text::opt_text(scope),
                now,
                token_id@,
                access_plain@,
                refresh_plain@,
            );
            assert(self@.access =~= after.access);
            assert(self@.refresh =~= after.refresh);
        }
        MintedTokens {
            access_token: access_plain,
            refresh_token: refresh_plain,
            token_id,
            access_expires_at: expires_at,
            scope,
        }
    }

    /// Mints a fresh pair.
    pub fn mint_pair(&mut self, client_id: &str, scope: Option<String>) -> (r: MintedTokens)
        ensures
            exists|now: i64|
                final(self)@ == #[trigger] minted(
                    old(self)@,
                    client_id@,
                    text::opt_text(scope),
                    now,
                    r.token_id@,
                    r.access_token@,
                    r.refresh_token@,
                ),
            r.scope == scope,
            r.access_expires_at == final(self)@.access[digest_of(r.access_token@)].expires_at,
            exists|bytes: Seq<u8>|
                bytes.len() == 4 && r.token_id@ == #[trigger] token_id_text(bytes),
            exists|bytes: Seq<u8>|
                bytes.len() == 32 && r.access_token@ == #[trigger] token_text("at_"@, bytes),
            exists|bytes: Seq<u8>|
                bytes.len() == 32 && r.refresh_token@ == #[trigger] token_text("rt_"@, bytes),
    {
        let token_id = generate_token_id();
        let access_plain = generate_access_token();
        let refresh_plain = generate_refresh_token();
        let now: i64 = now_nanos();
        self.mint_pair_at(client_id, scope, now, token_id, access_plain, refresh_plain)
    }

    /// The id of a refresh token whose text was presented.
    fn find_by_refresh_hash(&self, presented: &str) -> (r: Option<String>)
        ensures
            match r {
                Some(id) => presents(self@, presented@, id@),
                None => forall|id: Seq<char>| !presents(self@, presented@, id),
            },
    {
        let digest = sha256_hex(presented);
        let wanted = digest.as_str();
        let test = |t: &RefreshToken| -> (b: bool)
            ensures
                b == (t.token_hash@ == wanted@),
        {
            has_digest(t, wanted)
        };
        let r = self.refresh_by_id.find_key(
            test,
            Ghost(|t: RefreshToken| t.token_hash@ == wanted@),
        );
        proof {
            if r is None {
                assert forall|id: Seq<char>| !presents(self@, presented@, id) by {
                    if self.refresh_by_id@.dom().contains(id) {
                        let t = self.refresh_by_id@[id];
                        assert(t.token_hash@ != wanted@);
                    }
                }
            }
        }
        r
    }

    /// Replaces a presented refresh token by a pair of given texts, where the client is its own.
    pub fn rotate_refresh_at(
        &mut self,
        presented: &str,
        authenticated_client_id: &str,
        now: i64,
        token_id: String,
        access_plain: String,
        refresh_plain: String,
    ) -> (r: Option<MintedTokens>)
        ensures
            match r {
                None => {
                    &&& final(self)@ == old(self)@
                    &&& (forall|id: Seq<char>| !presents(old(self)@, presented@, id)) || exists|
                        id: Seq<char>,
                    | #[trigger]
                        presents(old(self)@, presented@, id) && old(self)@.refresh[id].client_id
                            != authenticated_client_id@
                },
                Some(m) => {
                    &&& exists|id: Seq<char>| #[trigger]
                        presents(old(self)@, presented@, id) && old(self)@.refresh[id].client_id
                            == authenticated_client_id@ && final(self)@ == minted(
                            without_token(old(self)@, id),
                            authenticated_client_id@,
                            old(self)@.refresh[id].scope,
                            now,
                            token_id@,
                            access_plain@,
                            refresh_plain@,
                        ) && text::opt_text(m.scope) == old(self)@.refresh[id].scope
                    &&& m.access_token == access_plain
                    &&& m.refresh_token == refresh_plain
                    &&& m.token_id == token_id
                    &&& m.access_expires_at == chance::later(now, ACCESS_TTL as int)
                },
            },
    {
        let ghost before = self@;
        let old_id = match self.find_by_refresh_hash(presented) {
            Some(id) => id,
            None => {
                return None;
            },
        };
        let found = match self.refresh_by_id.get(old_id.as_str()) {
            Some(t) => t.copy(),
            None => {
                return None;
            },
        };
        assert(found@ == before.refresh[old_id@]);
        if !same(found.client_id.as_str(), authenticated_client_id) {
            return None;
        }
        let _ = self.revoke_by_id(old_id.as_str());
        assert(presents(before, presented@, old_id@));
        Some(
            self.mint_pair_at(
                found.client_id.as_str(),
                found.scope,
                now,
                token_id,
                access_plain,
                refresh_plain,
            ),
        )
    }

    /// Replaces a presented refresh token by a fresh pair, where the client is its own.
    pub fn rotate_refresh(&mut self, presented: &str, authenticated_client_id: &str) -> (r: Option<
        MintedTokens,
    >)
        ensures
            match r {
                None => {
                    &&& final(self)@ == old(self)@
                    &&& (forall|id: Seq<char>| !presents(old(self)@, presented@, id)) || exists|
                        id: Seq<char>,
                    | #[trigger]
                        presents(old(self)@, presented@, id) && old(self)@.refresh[id].client_id
                            != authenticated_client_id@
                },
                Some(m) => {
                    &&& exists|id: Seq<char>, now: i64|
                        presents(old(self)@, presented@, id) && old(self)@.refresh[id].client_id
                            == authenticated_client_id@ && text::opt_text(m.scope)
                            == old(self)@.refresh[id].scope && final(self)@ == #[trigger] minted(
                            without_token(old(self)@, id),
                            authenticated_client_id@,
                            old(self)@.refresh[id].scope,
                            now,
                            m.token_id@,
                            m.access_token@,
                            m.refresh_token@,
                        )
                    &&& m.access_expires_at == final(self)@.access[digest_of(
                        m.access_token@,
                    )].expires_at
                    &&& exists|bytes: Seq<u8>|
                        bytes.len() == 4 && m.token_id@ == #[trigger] token_id_text(bytes)
                    &&& exists|bytes: Seq<u8>|
                        bytes.len() == 32 && m.access_token@ == #[trigger] token_text(
                            "at_"@,
                            bytes,
                        )
                    &&& exists|bytes: Seq<u8>|
                        bytes.len() == 32 && m.refresh_token@ == #[trigger] token_text(
                            "rt_"@,
                            bytes,
                        )
                },
            },
    {
        let token_id = generate_token_id();
        let access_plain = generate_access_token();
        let refresh_plain = generate_refresh_token();
        let now: i64 = now_nanos();
        self.rotate_refresh_at(
            presented,
            authenticated_client_id,
            now,
            token_id,
            access_plain,
            refresh_plain,
        )
    }

    /// The access token that was presented, unless it is unknown or has expired.
    pub fn verify_access_at(&self, presented: &str, now: i64) -> (r: Option<&AccessToken>)
        ensures
            match r {
                Some(a) => verified(self@, presented@, now) == Some(a@),
                None => verified(self@, presented@, now) is None,
            },
    {
        let digest = sha256_hex(presented);
        match self.access_by_hash.get(digest.as_str()) {
            Some(a) => if now >= a.expires_at {
                None
            } else {
                Some(a)
            },
            None => None,
        }
    }

    /// The access token that was presented, unless it is unknown or has expired by now.
    pub fn verify_access(&self, presented: &str) -> (r: Option<&AccessToken>)
        ensures
            exists|now: i64|
                (match r {
                    Some(a) => Some(a@),
                    None => None,
                }) == #[trigger] verified(self@, presented@, now),
            !self@.access.dom().contains(digest_of(presented@)) ==> r is None,
    {
        let now: i64 = now_nanos();
        self.verify_access_at(presented, now)
    }

    /// Stamps a refresh token as used, and tells whether it is there.
    pub fn touch_at(&mut self, token_id: &str, now: i64) -> (r: bool)
        ensures
            r == old(self)@.refresh.dom().contains(token_id@),
            final(self)@ == (if r {
                TokensV {
                    refresh: old(self)@.refresh.insert(
                        token_id@,
                        RefreshV { last_used_at: Some(now), ..old(self)@.refresh[token_id@] },
                    ),
                    ..old(self)@
                }
            } else {
                old(self)@
            }),
    {
        proof {
            use_type_invariant(&*self);
        }
        let ghost before = self@;
        let mut refreshes: StrMap<RefreshToken> = StrMap::new();
        std::mem::swap(&mut refreshes, &mut self.refresh_by_id);
        let r = match refreshes.remove(token_id) {
            Some(t) => {
                let mut t = t;
                t.last_used_at = Some(now);
                refreshes.insert(token_id, t);
                true
            },
            None => false,
        };
        self.refresh_by_id = refreshes;
        proof {
            if r {
                assert(self@.refresh =~= before.refresh.insert(
                    token_id@,
                    RefreshV { last_used_at: Some(now), ..before.refresh[token_id@] },
                ));
            } else {
                assert(self@.refresh =~= before.refresh);
            }
        }
        r
    }

    /// Stamps a refresh token as used now.
    pub fn touch(&mut self, token_id: &str) -> (r: bool)
        ensures
            r == old(self)@.refresh.dom().contains(token_id@),
            !r ==> final(self)@ == old(self)@,
            r ==> final(self)@.access == old(self)@.access && exists|at: i64|
                final(self)@.refresh == old(self)@.refresh.insert(
                    token_id@,
                    #[trigger] used_at(old(self)@.refresh[token_id@], at),
                ),
    {
        let now: i64 = now_nanos();
        let r = self.touch_at(token_id, now);
        proof {
            if r {
                assert(used_at(old(self)@.refresh[token_id@], now) == RefreshV {
                    last_used_at: Some(now),
                    ..old(self)@.refresh[token_id@]
                });
            }
        }
        r
    }

    /// Revokes a refresh token and the access tokens that were minted with it.
    pub fn revoke_by_id(&mut self, token_id: &str) -> (r: bool)
        ensures
            r == old(self)@.refresh.dom().contains(token_id@),
            final(self)@ == without_token(old(self)@, token_id@),
    {
        proof {
            use_type_invariant(&*self);
        }
        let ghost before = self@;
        let mut refreshes: StrMap<RefreshToken> = StrMap::new();
        std::mem::swap(&mut refreshes, &mut self.refresh_by_id);
        let removed = refreshes.remove(token_id).is_some();
        self.refresh_by_id = refreshes;
        let keep = |a: &AccessToken| -> (b: bool)
            ensures
                b == (a.origin_token_id@ != token_id@),
        {
            !same(a.origin_token_id.as_str(), token_id)
        };
        let mut access: StrMap<AccessToken> = StrMap::new();
        std::mem::swap(&mut access, &mut self.access_by_hash);
        let _ = access.retain(keep, Ghost(|a: AccessToken| a.origin_token_id@ != token_id@));
        self.access_by_hash = access;
        proof {
            assert(self@.refresh =~= before.refresh.remove(token_id@));
            assert(self@.access =~= without_token(before, token_id@).access);
        }
        removed
    }

    /// Revokes a presented refresh token and the access tokens that were minted with it.
    pub fn revoke_refresh_plain(&mut self, presented: &str) -> (r: bool)
        ensures
            match r {
                true => exists|id: Seq<char>| #[trigger]
                    presents(old(self)@, presented@, id) && final(self)@ == without_token(
                        old(self)@,
                        id,
                    ),
                false => final(self)@ == old(self)@ && forall|id: Seq<char>|
                    !presents(old(self)@, presented@, id),
            },
    {
        let ghost before = self@;
        match self.find_by_refresh_hash(presented) {
            Some(id) => {
                assert(presents(before, presented@, id@));
                self.revoke_by_id(id.as_str())
            },
            None => false,
        }
    }

    /// Revokes a presented access token.  Its refresh token stays.
    pub fn revoke_access_plain(&mut self, presented: &str) -> (r: bool)
        ensures
            r == old(self)@.access.dom().contains(digest_of(presented@)),
            final(self)@ == (TokensV {
                access: old(self)@.access.remove(digest_of(presented@)),
                ..old(self)@
            }),
    {
        proof {
            use_type_invariant(&*self);
        }
        let ghost before = self@;
        let digest = sha256_hex(presented);
        let mut access: StrMap<AccessToken> = StrMap::new();
        std::mem::swap(&mut access, &mut self.access_by_hash);
        let r = access.remove(digest.as_str()).is_some();
        self.access_by_hash = access;
        assert(self@.access =~= before.access.remove(digest_of(presented@)));
        r
    }

    /// Revokes every token of a client, and tells how many refresh tokens that were.
    pub fn revoke_by_client(&mut self, client_id: &str) -> (r: usize)
        ensures
            final(self)@ == without_client(old(self)@, client_id@),
            r == old(self)@.refresh.dom().len() - final(self)@.refresh.dom().len(),
    {
        proof {
            use_type_invariant(&*self);
        }
        let ghost before = self@;
        let ghost had = self.refresh_by_id@;
        let mut refreshes: StrMap<RefreshToken> = StrMap::new();
        std::mem::swap(&mut refreshes, &mut self.refresh_by_id);
        let keep = |t: &RefreshToken| -> (b: bool)
            ensures
                b == (t.client_id@ != client_id@),
        {
            !same(t.client_id.as_str(), client_id)
        };
        let removed: usize = refreshes.retain(
            keep,
            Ghost(|t: RefreshToken| t.client_id@ != client_id@),
        );
        let ghost has = refreshes@;
        self.refresh_by_id = refreshes;
        let keep_access = |a: &AccessToken| -> (b: bool)
            ensures
                b == (a.client_id@ != client_id@),
        {
            !same(a.client_id.as_str(), client_id)
        };
        let mut access: StrMap<AccessToken> = StrMap::new();
        std::mem::swap(&mut access, &mut self.access_by_hash);
        let _ = access.retain(keep_access, Ghost(|a: AccessToken| a.client_id@ != client_id@));
        self.access_by_hash = access;
        proof {
            assert(before.refresh.dom() =~= had.dom());
            assert(self@.refresh.dom() =~= has.dom());
            assert(self@.refresh =~= without_client(before, client_id@).refresh);
            assert(self@.access =~= without_client(before, client_id@).access);
        }
        removed
    }

    /// Every refresh token as an admin listing shows it, ordered by their ids.
    pub fn list_refresh_at(&self, now: i64) -> (r: Vec<RefreshTokenView>)
        ensures
            lists(r@, self@, now),
    {
        proof {
            use_type_invariant(self);
        }
        let ids = self.refresh_by_id.sorted_keys();
        let ghost keys = text::texts(ids@);
        assert(self@.refresh.dom() =~= self.refresh_by_id@.dom());
        let mut out: Vec<RefreshTokenView> = Vec::new();
        let mut i: usize = 0;
        while i < ids.len()
            invariant
                i <= ids.len(),
                out.len() == i,
                keys == text::texts(ids@),
                keys.to_set() == self.refresh_by_id@.dom(),
                self.well_formed(),
                forall|k: int| 0 <= k < i ==> shows(#[trigger] out@[k], self@, keys[k], now),
            decreases ids.len() - i,
        {
            let id = ids[i].as_str();
            assert(keys[i as int] == id@);
            assert(keys.to_set().contains(id@));
            match self.refresh_by_id.get(id) {
                Some(t) => {
                    let test = |a: &AccessToken| -> (b: bool)
                        ensures
                            b == (a.origin_token_id@ == id@ && now < a.expires_at),
                    {
                        same(a.origin_token_id.as_str(), id) && now < a.expires_at
                    };
                    let ghost fits = |a: AccessToken|
                        a.origin_token_id@ == id@ && now < a.expires_at;
                    let active: usize = self.access_by_hash.count(test, Ghost(fits));
                    assert(strmap::filtered(self.access_by_hash@, fits).dom() =~= live_access(
                        self@,
                        id@,
                        now,
                    ).dom());
                    let last_used_at = match t.last_used_at {
                        Some(at) => Some(rfc3339_of(at)),
                        None => None,
                    };
                    out.push(
                        RefreshTokenView {
                            token_id: t.token_id.clone(),
                            client_id: t.client_id.clone(),
                            scope: copy_opt(&t.scope),
                            created_at: rfc3339_of(t.created_at),
                            last_used_at,
                            active_access_tokens: active,
                        },
                    );
                },
                None => {
                    assert(false);
                },
            }
            i = i + 1;
        }
        assert(text::in_order(keys));
        out
    }

    /// Every refresh token as an admin listing shows it now.
    pub fn list_refresh(&self) -> (r: Vec<RefreshTokenView>)
        ensures
            exists|now: i64| #[trigger] lists(r@, self@, now),
    {
        let now: i64 = now_nanos();
        self.list_refresh_at(now)
    }

    /// The refresh tokens that are to be kept on disk, ordered by their ids.
    pub fn records(&self) -> (r: Vec<RefreshToken>)
        ensures
            exists|ids: Seq<Seq<char>>|
                {
                    &&& #[trigger] text::in_order(ids)
                    &&& ids.no_duplicates()
                    &&& ids.to_set() == self@.refresh.dom()
                    &&& ids.len() == r@.len()
                    &&& forall|i: int|
                        0 <= i < ids.len() ==> (#[trigger] r@[i])@ == self@.refresh[ids[i]]
                },
    {
        let ids = self.refresh_by_id.sorted_keys();
        let ghost keys = text::texts(ids@);
        assert(self@.refresh.dom() =~= self.refresh_by_id@.dom());
        let mut out: Vec<RefreshToken> = Vec::new();
        let mut i: usize = 0;
        while i < ids.len()
            invariant
                i <= ids.len(),
                out.len() == i,
                keys == text::texts(ids@),
                keys.to_set() == self.refresh_by_id@.dom(),
                forall|k: int| 0 <= k < i ==> (#[trigger] out@[k])@ == self@.refresh[keys[k]],
            decreases ids.len() - i,
        {
            let id = ids[i].as_str();
            assert(keys[i as int] == id@);
            assert(keys.to_set().contains(id@));
            match self.refresh_by_id.get(id) {
                Some(t) => {
                    out.push(t.copy());
                },
                None => {
                    assert(false);
                },
            }
            i = i + 1;
        }
        assert(text::in_order(keys));
        out
    }

    /// Evicts the access tokens that have expired, and tells how many they were.
    pub fn sweep_access_at(&mut self, now: i64) -> (r: usize)
        ensures
            final(self)@ == swept(old(self)@, now),
            r == old(self)@.access.dom().len() - final(self)@.access.dom().len(),
    {
        proof {
            use_type_invariant(&*self);
        }
        let ghost before = self@;
        let ghost had = self.access_by_hash@;
        let live = |a: &AccessToken| -> (b: bool)
            ensures
                b == (now < a.expires_at),
        {
            now < a.expires_at
        };
        let mut access: StrMap<AccessToken> = StrMap::new();
        std::mem::swap(&mut access, &mut self.access_by_hash);
        let removed: usize = access.retain(live, Ghost(|a: AccessToken| now < a.expires_at));
        let ghost has = access@;
        self.access_by_hash = access;
        proof {
            assert(before.access.dom() =~= had.dom());
            assert(self@.access.dom() =~= has.dom());
            assert(self@.access =~= swept(before, now).access);
        }
        removed
    }

    /// Evicts the access tokens that have expired by now.
    pub fn sweep_access(&mut self) -> (r: usize)
        ensures
            exists|now: i64| final(self)@ == #[trigger] swept(old(self)@, now),
            r == old(self)@.access.dom().len() - final(self)@.access.dom().len(),
    {
        let now: i64 = now_nanos();
        self.sweep_access_at(now)
    }
}

/// A refresh token that was used at an instant.
pub open spec fn used_at(t: RefreshV, at: i64) -> RefreshV {
    RefreshV { last_used_at: Some(at), ..t }
}

// ── More laws ───────────────────────────────────────────────────────────

/// Tokens are told apart by their digests: two texts are the same token only where their SHA-256
/// digests are the same.
pub proof fn law_tokens_are_told_apart(a: Seq<char>, b: Seq<char>)
    requires
        digest_of(a) == digest_of(b),
    ensures
        codec::sha256(codec::utf8(a)) == codec::sha256(codec::utf8(b)),
{
    codec::law_hex_tells_bytes_apart(
        codec::sha256(codec::utf8(a)),
        codec::sha256(codec::utf8(b)),
    );
}

/// A pair that was minted belongs to its client and its scope, and its access token holds for an
/// hour; no other token is touched.
pub proof fn law_minted_pair_belongs_to_its_client(
    s: TokensV,
    client_id: Seq<char>,
    scope: Option<Seq<char>>,
    now: i64,
    token_id: Seq<char>,
    access_plain: Seq<char>,
    refresh_plain: Seq<char>,
    other: Seq<char>,
    at: i64,
)
    requires
        now <= i64::MAX - 3_600_000_000_000,
    ensures
        ({
            let after = minted(s, client_id, scope, now, token_id, access_plain, refresh_plain);
            &&& verified(after, access_plain, at) is Some <==> at < now + 3_600_000_000_000
            &&& verified(after, access_plain, at) matches Some(a) ==> a.client_id == client_id
                && a.scope == scope && a.origin_token_id == token_id
            &&& after.refresh[token_id].client_id == client_id
            &&& after.refresh[token_id].scope == scope
            &&& after.refresh[token_id].created_at == now
            &&& after.refresh[token_id].token_id == token_id
            &&& digest_of(other) != digest_of(access_plain) ==> verified(after, other, at)
                == verified(s, other, at)
        }),
{
}

/// An access token that nobody was given is accepted from nobody.
pub proof fn law_unknown_token_is_refused(s: TokensV, presented: Seq<char>, now: i64)
    ensures
        verified(s, presented, now) is Some ==> s.access.dom().contains(digest_of(presented))
            && now < s.access[digest_of(presented)].expires_at,
        !s.access.dom().contains(digest_of(presented)) ==> verified(s, presented, now) is None,
{
}

/// Refresh tokens outlive the daemon: each that was stored is there again under its id.
pub proof fn law_stored_tokens_come_back(tokens: Seq<RefreshToken>, k: int)
    requires
        0 <= k < tokens.len(),
        forall|i: int, j: int|
            0 <= i < j < tokens.len() ==> (#[trigger] tokens[i]).token_id@ != (
            #[trigger] tokens[j]).token_id@,
    ensures
        by_id(tokens).dom().contains(tokens[k].token_id@),
        by_id(tokens)[tokens[k].token_id@] == tokens[k]@,
    decreases tokens.len(),
{
    let front = tokens.drop_last();
    if k < front.len() {
        assert forall|i: int, j: int| 0 <= i < j < front.len() implies (#[trigger] front[i]).token_id@
            != (#[trigger] front[j]).token_id@ by {
            assert(front[i] == tokens[i] && front[j] == tokens[j]);
        }
        law_stored_tokens_come_back(front, k);
        assert(front[k] == tokens[k]);
        assert(tokens[k].token_id@ != tokens[tokens.len() - 1].token_id@);
    }
}

/// Noting a use changes nothing else of a token.
pub proof fn law_use_is_noted(t: RefreshV, at: i64)
    ensures
        used_at(t, at).last_used_at == Some(at),
        used_at(t, at) == (RefreshV { last_used_at: Some(at), ..t }),
{
}

/// Tokens go by the bytes that were drawn for them.
pub proof fn law_tokens_have_their_own_names(a: Seq<u8>, b: Seq<u8>)
    requires
        token_id_text(a) == token_id_text(b),
    ensures
        a == b,
{
    let p = "tok_"@;
    assert(token_id_text(a).skip(p.len() as int) =~= codec::hex(a));
    assert(token_id_text(b).skip(p.len() as int) =~= codec::hex(b));
    codec::law_hex_tells_bytes_apart(a, b);
}

/// An access token counts for the refresh token that it came from, as long as it lives.
pub proof fn law_live_tokens_are_counted(s: TokensV, token_id: Seq<char>, key: Seq<char>, now: i64)
    ensures
        live_access(s, token_id, now).dom().contains(key) <==> s.access.dom().contains(key)
            && s.access[key].origin_token_id == token_id && now < s.access[key].expires_at,
{
}

} // verus!
