//! Authorization sessions: a client asks, an operator approves with a PIN, and the client
//! exchanges the code that it got.

use vstd::prelude::*;
use vstd::string::*;

use crate::text;
use crate::strmap;
use crate::codec;
use crate::chance;
use crate::chance::later_than;
use crate::chance::now_nanos;
use crate::chance::random_bytes;
use crate::chance::rfc3339_of;
use crate::codec::b64url_encode;
use crate::codec::hex_lower;
use crate::codec::same_secret;
use crate::codec::sha256_of;
use crate::strmap::StrMap;
use crate::text::copy_opt;
use crate::text::decimal_of;
use crate::text::same;

verus! {

/// Time a `Pending` session has to receive PIN approval: ten minutes, in nanoseconds.
pub const SESSION_TTL: i64 = 600_000_000_000;

/// Time a freshly issued PIN remains valid: five minutes, in nanoseconds.
pub const PIN_TTL: i64 = 300_000_000_000;

/// Time in which a freshly minted authorisation code can be exchanged: one minute, in
/// nanoseconds.
pub const CODE_TTL: i64 = 60_000_000_000;

/// Session status — drives both the consent UI and `oauth sessions list` rendering.
#[derive(Debug, Clone, Copy, PartialEq, Eq, Structural)]
pub enum SessionStatus {
    Pending,
    Approved,
    Denied,
    /// The code has been exchanged.
    Consumed,
}

/// Operator-issued PIN tied to a specific session, for one use.
#[derive(Debug)]
pub struct PinInfo {
    pub pin: String,
    pub expires_at: i64,
    pub used: bool,
}

impl PinInfo {
    pub open spec fn active(&self, now: i64) -> bool {
        !self.used && now < self.expires_at
    }

    pub fn is_active(&self, now: i64) -> (r: bool)
        ensures
            r == self.active(now),
    {
        !self.used && now < self.expires_at
    }
}

/// One authorisation session.  Times are nanoseconds since 1970.
#[derive(Debug)]
pub struct AuthSession {
    pub session_id: String,
    pub client_id: String,
    pub redirect_uri: String,
    pub state: Option<String>,
    pub code_challenge: String,
    pub code_challenge_method: String,
    pub scope: Option<String>,
    pub created_at: i64,
    pub expires_at: i64,
    pub status: SessionStatus,
    pub pin: Option<PinInfo>,
    /// Authorisation code minted on PIN approval, cleared when it is exchanged.
    pub authorization_code: Option<String>,
    pub code_expires_at: Option<i64>,
}

fn copy_pin(pin: &Option<PinInfo>) -> (r: Option<PinInfo>)
    ensures
        r == *pin,
{
    match pin {
        Some(p) => Some(PinInfo { pin: p.pin.clone(), expires_at: p.expires_at, used: p.used }),
        None => None,
    }
}

impl AuthSession {
    pub fn copy(&self) -> (r: AuthSession)
        ensures
            r == *self,
    {
        AuthSession {
            session_id: self.session_id.clone(),
            client_id: self.client_id.clone(),
            redirect_uri: self.redirect_uri.clone(),
            state: copy_opt(&self.state),
            code_challenge: self.code_challenge.clone(),
            code_challenge_method: self.code_challenge_method.clone(),
            scope: copy_opt(&self.scope),
            created_at: self.created_at,
            expires_at: self.expires_at,
            status: self.status,
            pin: copy_pin(&self.pin),
            authorization_code: copy_opt(&self.authorization_code),
            code_expires_at: self.code_expires_at,
        }
    }
}

/// A session as an admin listing shows it: without its PIN and its code.
#[derive(Debug)]
pub struct SessionView {
    pub session_id: String,
    pub client_id: String,
    pub redirect_uri: String,
    pub status: SessionStatus,
    pub created_at: String,
    pub expires_at: String,
    pub has_pending_pin: bool,
}

/// `v` shows the session `s` as it stands at `now`.
pub open spec fn shows(v: SessionView, s: AuthSession, now: i64) -> bool {
    &&& v.session_id@ == s.session_id@
    &&& v.client_id@ == s.client_id@
    &&& v.redirect_uri@ == s.redirect_uri@
    &&& v.status == s.status
    &&& v.created_at@ == chance::rfc3339(s.created_at)
    &&& v.expires_at@ == chance::rfc3339(s.expires_at)
    &&& v.has_pending_pin == (s.pin matches Some(p) && p.active(now))
}

impl SessionView {
    /// A session as it stands at `now`.
    pub fn of(s: &AuthSession, now: i64) -> (r: SessionView)
        ensures
            shows(r, *s, now),
    {
        let has_pending_pin = match &s.pin {
            Some(p) => p.is_active(now),
            None => false,
        };
        SessionView {
            session_id: s.session_id.clone(),
            client_id: s.client_id.clone(),
            redirect_uri: s.redirect_uri.clone(),
            status: s.status,
            created_at: rfc3339_of(s.created_at),
            expires_at: rfc3339_of(s.expires_at),
            has_pending_pin,
        }
    }
}

/// `views` shows every session of `m` once, as it stands at `now`, in some order.
pub open spec fn lists(views: Seq<SessionView>, m: Map<Seq<char>, AuthSession>, now: i64) -> bool {
    exists|ids: Seq<Seq<char>>|
        {
            &&& #[trigger] ids.no_duplicates()
            &&& ids.to_set() == m.dom()
            &&& ids.len() == views.len()
            &&& forall|i: int| 0 <= i < ids.len() ==> shows(#[trigger] views[i], m[ids[i]], now)
        }
}

/// Inputs from the `GET /oauth/authorize` query string.
#[derive(Debug)]
pub struct AuthorizeRequest {
    pub client_id: String,
    pub redirect_uri: String,
    pub state: Option<String>,
    pub code_challenge: String,
    pub code_challenge_method: String,
    pub scope: Option<String>,
}

/// Outcome of a successful PIN approval.
#[derive(Debug)]
pub struct ApproveOutcome {
    pub authorization_code: String,
    pub redirect_uri: String,
    pub state: Option<String>,
}

/// Why approval was rejected.
#[derive(Debug, Clone, Copy, PartialEq, Eq, Structural)]
pub enum ApproveError {
    UnknownSession,
    Expired,
    AlreadyDecided,
    NoPin,
    PinExpired,
    PinMismatch,
}

/// Why a code exchange was rejected.
#[derive(Debug, Clone, Copy, PartialEq, Eq, Structural)]
pub enum CodeExchangeError {
    /// No session has this code, or its session is not an approved one.
    UnknownCode,
    /// The code was issued but its window elapsed.
    CodeExpired,
    /// The authenticating client is not the one the code was minted for.
    ClientMismatch,
    /// The redirect URI is not the one the session was created with.
    RedirectUriMismatch,
    /// The code verifier does not match the challenge.
    PkceMismatch,
}

/// Outcome of a successful code exchange.
#[derive(Debug)]
pub struct ConsumedCode {
    pub client_id: String,
    pub scope: Option<String>,
}

// ── What the store does ─────────────────────────────────────────────────

/// The session that a request opens.
pub open spec fn fresh_session(req: AuthorizeRequest, session_id: String, now: i64) -> AuthSession {
    AuthSession {
        session_id,
        client_id: req.client_id,
        redirect_uri: req.redirect_uri,
        state: req.state,
        code_challenge: req.code_challenge,
        code_challenge_method: req.code_challenge_method,
        scope: req.scope,
        created_at: now,
        expires_at: chance::later(now, SESSION_TTL as int) as i64,
        status: SessionStatus::Pending,
        pin: None,
        authorization_code: None,
        code_expires_at: None,
    }
}

/// Whether a session can be given a PIN.
pub open spec fn takes_pin(s: AuthSession, now: i64) -> bool {
    now < s.expires_at && s.status == SessionStatus::Pending
}

/// A session with a fresh PIN; a PIN that it had is gone.
pub open spec fn with_pin(s: AuthSession, pin: String, now: i64) -> AuthSession {
    AuthSession {
        pin: Some(PinInfo { pin, expires_at: chance::later(now, PIN_TTL as int) as i64, used: false }),
        ..s
    }
}

/// The session with an id at an instant, unless it has expired.
pub open spec fn found(m: Map<Seq<char>, AuthSession>, session_id: Seq<char>, now: i64) -> Option<
    AuthSession,
> {
    if m.dom().contains(session_id) && now < m[session_id].expires_at {
        Some(m[session_id])
    } else {
        None
    }
}

/// What a request for a PIN at `now` comes to: a session that takes one has `pin` afterwards, in
/// place of any that it had; where there is no such session, or it has expired or is decided, no
/// PIN is issued and nothing changes.
pub open spec fn issues_pin(
    before: Map<Seq<char>, AuthSession>,
    after: Map<Seq<char>, AuthSession>,
    session_id: Seq<char>,
    pin: Option<String>,
    now: i64,
) -> bool {
    &&& pin is Some <==> before.dom().contains(session_id) && takes_pin(before[session_id], now)
    &&& after == (match pin {
        Some(p) => before.insert(session_id, with_pin(before[session_id], p, now)),
        None => before,
    })
}

/// What stands against an approval with a PIN, if anything.
pub open spec fn approval_error(s: AuthSession, pin: Seq<char>, now: i64) -> Option<ApproveError> {
    if now >= s.expires_at {
        Some(ApproveError::Expired)
    } else if s.status != SessionStatus::Pending {
        Some(ApproveError::AlreadyDecided)
    } else {
        match s.pin {
            None => Some(ApproveError::NoPin),
            Some(p) => if p.used || now >= p.expires_at {
                Some(ApproveError::PinExpired)
            } else if pin != p.pin@ {
                Some(ApproveError::PinMismatch)
            } else {
                None
            },
        }
    }
}

/// A session that was approved: its PIN is used up, and it has a code.
pub open spec fn approved(s: AuthSession, code: String, now: i64) -> AuthSession {
    AuthSession {
        pin: match s.pin {
            Some(p) => Some(PinInfo { used: true, ..p }),
            None => None,
        },
        authorization_code: Some(code),
        code_expires_at: Some(chance::later(now, CODE_TTL as int) as i64),
        status: SessionStatus::Approved,
        ..s
    }
}

/// Whether a session has a code.
pub open spec fn holds_code(s: AuthSession, code: Seq<char>) -> bool {
    s.authorization_code matches Some(c) && c@ == code
}

/// Whether a verifier matches a challenge: the challenge is the URL-safe base64 form of the
/// verifier's digest.
pub open spec fn pkce_matches(verifier: Seq<char>, challenge: Seq<char>) -> bool {
    codec::b64url(codec::sha256(codec::utf8(verifier))) == challenge
}

/// What stands against the exchange of a session's code, if anything.  A session that has expired
/// is as good as unknown.
pub open spec fn exchange_error(
    s: AuthSession,
    client_id: Seq<char>,
    redirect_uri: Seq<char>,
    verifier: Seq<char>,
    now: i64,
) -> Option<CodeExchangeError> {
    if now >= s.expires_at || s.status != SessionStatus::Approved {
        Some(CodeExchangeError::UnknownCode)
    } else {
        match s.code_expires_at {
            None => Some(CodeExchangeError::UnknownCode),
            Some(expires) => if now >= expires {
                Some(CodeExchangeError::CodeExpired)
            } else if s.client_id@ != client_id {
                Some(CodeExchangeError::ClientMismatch)
            } else if s.redirect_uri@ != redirect_uri {
                Some(CodeExchangeError::RedirectUriMismatch)
            } else if !pkce_matches(verifier, s.code_challenge@) {
                Some(CodeExchangeError::PkceMismatch)
            } else {
                None
            },
        }
    }
}

/// A session whose code was exchanged: the code is gone.
pub open spec fn consumed(s: AuthSession) -> AuthSession {
    AuthSession {
        status: SessionStatus::Consumed,
        authorization_code: None,
        code_expires_at: None,
        ..s
    }
}

/// The sessions that have not expired.
pub open spec fn unexpired(m: Map<Seq<char>, AuthSession>, now: i64) -> Map<Seq<char>, AuthSession> {
    strmap::filtered(m, |s: AuthSession| now < s.expires_at)
}

/// A code is single-use: once its session is consumed, no session has it any more.
pub proof fn law_code_is_single_use(
    m: Map<Seq<char>, AuthSession>,
    id: Seq<char>,
    code: Seq<char>,
    other: Seq<char>,
)
    requires
        m.dom().contains(id),
        forall|k: Seq<char>| m.dom().contains(k) && holds_code(#[trigger] m[k], code) ==> k == id,
    ensures
        ({
            let after = m.insert(id, consumed(m[id]));
            after.dom().contains(other) ==> !holds_code(after[other], code)
        }),
{
}

/// A consumed session refuses every further exchange.
pub proof fn law_consumed_session_refuses_exchange(
    s: AuthSession,
    client_id: Seq<char>,
    redirect_uri: Seq<char>,
    verifier: Seq<char>,
    now: i64,
)
    ensures
        exchange_error(consumed(s), client_id, redirect_uri, verifier, now) == Some(
            CodeExchangeError::UnknownCode,
        ),
{
}

/// A PIN is for one approval: an approved session cannot be approved again, whatever the PIN.
pub proof fn law_pin_is_single_use(s: AuthSession, code: String, pin: Seq<char>, now: i64, then: i64)
    ensures
        approval_error(approved(s, code, now), pin, then) is Some,
        approved(s, code, now).pin matches Some(p) ==> p.used,
{
}

/// A new PIN makes the one before it worthless, unless they are the same.
pub proof fn law_new_pin_replaces_old(
    s: AuthSession,
    first: String,
    second: String,
    now: i64,
    then: i64,
    later_still: i64,
)
    requires
        first@ != second@,
    ensures
        approval_error(
            with_pin(with_pin(s, first, now), second, then),
            first@,
            later_still,
        ) is Some,
{
}

/// A code can only be exchanged by its own client, with its own redirect URI and a matching
/// verifier, before it or its session expires.
pub proof fn law_exchange_checks_everything(
    s: AuthSession,
    client_id: Seq<char>,
    redirect_uri: Seq<char>,
    verifier: Seq<char>,
    now: i64,
)
    ensures
        exchange_error(s, client_id, redirect_uri, verifier, now) is None <==> {
            &&& now < s.expires_at
            &&& s.status == SessionStatus::Approved
            &&& s.code_expires_at matches Some(expires) && now < expires
            &&& s.client_id@ == client_id
            &&& s.redirect_uri@ == redirect_uri
            &&& pkce_matches(verifier, s.code_challenge@)
        },
{
}

/// A freshly approved session can be exchanged for exactly as long as it and its code live, by
/// the client that knows the verifier.
pub proof fn law_approved_code_can_be_exchanged(
    s: AuthSession,
    code: String,
    verifier: Seq<char>,
    now: i64,
    then: i64,
)
    requires
        pkce_matches(verifier, s.code_challenge@),
    ensures
        holds_code(approved(s, code, now), code@),
        exchange_error(approved(s, code, now), s.client_id@, s.redirect_uri@, verifier, then)
            is None <==> then < chance::later(now, CODE_TTL as int) && then < s.expires_at,
{
}

// ── Identifiers ─────────────────────────────────────────────────────────

/// The session id that four random bytes give.
pub open spec fn session_id_text(bytes: Seq<u8>) -> Seq<char> {
    "sess_"@ + codec::hex(bytes)
}

/// The session id that four random bytes give.
pub fn session_id_of(bytes: &[u8]) -> (r: String)
    ensures
        r@ == session_id_text(bytes@),
{
    let mut out: String = "sess_".to_owned();
    out.append(hex_lower(bytes).as_str());
    out
}

/// A session id: `sess_` and eight hexadecimal digits.
pub fn generate_session_id() -> (r: String)
    ensures
        exists|bytes: Seq<u8>| bytes.len() == 4 && r@ == #[trigger] session_id_text(bytes),
{
    let bytes = random_bytes(4);
    session_id_of(bytes.as_slice())
}

/// A number below a million as six digits.
pub open spec fn six_digits(n: nat) -> Seq<char> {
    Seq::new((6 - text::decimal(n).len()) as nat, |i: int| '0') + text::decimal(n)
}

/// The number that four bytes give, the lowest first.
pub open spec fn le_number(bytes: Seq<u8>) -> int {
    bytes[0] + 0x100 * bytes[1] + 0x1_0000 * bytes[2] + 0x100_0000 * bytes[3]
}

/// The PIN that four random bytes give.
pub open spec fn pin_text(bytes: Seq<u8>) -> Seq<char> {
    six_digits((le_number(bytes) % 1_000_000) as nat)
}

/// A PIN is six decimal digits.
pub proof fn law_pin_has_six_digits(bytes: Seq<u8>)
    requires
        bytes.len() == 4,
    ensures
        pin_text(bytes).len() == 6,
        forall|i: int| 0 <= i < 6 ==> '0' <= #[trigger] pin_text(bytes)[i] <= '9',
{
    let n = (le_number(bytes) % 1_000_000) as nat;
    text::lemma_decimal_digits(n);
    reveal_with_fuel(text::decimal, 7);
}

/// The PIN that four random bytes give.
pub fn pin_of(bytes: &[u8]) -> (r: String)
    requires
        bytes@.len() == 4,
    ensures
        r@ == pin_text(bytes@),
{
    let n: u64 = bytes[0] as u64 + 0x100 * (bytes[1] as u64) + 0x1_0000 * (bytes[2] as u64)
        + 0x100_0000 * (bytes[3] as u64);
    let digits = decimal_of(n % 1_000_000);
    let count: usize = digits.as_str().unicode_len();
    proof {
        law_pin_has_six_digits(bytes@);
    }
    let mut out = String::new();
    let mut k: usize = count;
    while k < 6
        invariant
            count <= k <= 6 || (k == count && count > 6),
            out@ == Seq::new((k - count) as nat, |i: int| '0'),
        decreases 6 - k,
    {
        out.push('0');
        k = k + 1;
        assert(out@ =~= Seq::new((k - count) as nat, |i: int| '0'));
    }
    out.append(digits.as_str());
    assert(out@ =~= pin_text(bytes@));
    out
}

/// A PIN: six digits.
pub fn generate_pin() -> (r: String)
    ensures
        exists|bytes: Seq<u8>| bytes.len() == 4 && r@ == #[trigger] pin_text(bytes),
{
    let bytes = random_bytes(4);
    pin_of(bytes.as_slice())
}

/// An authorisation code: 32 random bytes in URL-safe base64.
pub fn generate_authorization_code() -> (r: String)
    ensures
        exists|bytes: Seq<u8>| bytes.len() == 32 && r@ == #[trigger] codec::b64url(bytes),
{
    let bytes = random_bytes(32);
    b64url_encode(bytes.as_slice())
}

/// Whether a verifier matches a challenge.
pub fn verify_pkce_s256(code_verifier: &str, code_challenge: &str) -> (r: bool)
    ensures
        r == pkce_matches(code_verifier@, code_challenge@),
{
    let digest = sha256_of(code_verifier.as_bytes());
    let computed = b64url_encode(digest.as_slice());
    same_secret(computed.as_str(), code_challenge)
}

/// Whether a session has a code.
fn has_code(s: &AuthSession, code: &str) -> (r: bool)
    ensures
        r == holds_code(*s, code@),
{
    match &s.authorization_code {
        Some(c) => same_secret(c.as_str(), code),
        None => false,
    }
}

// ── The store ───────────────────────────────────────────────────────────

/// The sessions of one daemon.
pub struct SessionStore {
    sessions: StrMap<AuthSession>,
}

impl SessionStore {
    /// The sessions, by their ids.
    pub closed spec fn view(&self) -> Map<Seq<char>, AuthSession> {
        self.sessions@
    }

    pub fn new() -> (r: Self)
        ensures
            r@ == Map::<Seq<char>, AuthSession>::empty(),
    {
        SessionStore { sessions: StrMap::new() }
    }

    /// Opens a session under a given id.
    pub fn create_at(&mut self, req: AuthorizeRequest, session_id: String, now: i64) -> (r:
        AuthSession)
        ensures
            r == fresh_session(req, session_id, now),
            final(self)@ == old(self)@.insert(session_id@, r),
    {
        let session = AuthSession {
            session_id,
            client_id: req.client_id,
            redirect_uri: req.redirect_uri,
            state: req.state,
            code_challenge: req.code_challenge,
            code_challenge_method: req.code_challenge_method,
            scope: req.scope,
            created_at: now,
            expires_at: later_than(now, SESSION_TTL),
            status: SessionStatus::Pending,
            pin: None,
            authorization_code: None,
            code_expires_at: None,
        };
        let kept = session.copy();
        self.sessions.insert(session.session_id.as_str(), kept);
        session
    }

    /// Opens a session under a fresh id.
    pub fn create(&mut self, req: AuthorizeRequest) -> (r: AuthSession)
        ensures
            final(self)@ == old(self)@.insert(r.session_id@, r),
            r == fresh_session(req, r.session_id, r.created_at),
            exists|bytes: Seq<u8>|
                bytes.len() == 4 && r.session_id@ == #[trigger] session_id_text(bytes),
    {
        let id = generate_session_id();
        let now: i64 = now_nanos();
        self.create_at(req, id, now)
    }

    /// The session with an id, unless it has expired.
    pub fn find_at(&self, session_id: &str, now: i64) -> (r: Option<&AuthSession>)
        ensures
            (match r {
                Some(s) => Some(*s),
                None => None,
            }) == found(self@, session_id@, now),
    {
        match self.sessions.get(session_id) {
            Some(s) => if now >= s.expires_at {
                None
            } else {
                Some(s)
            },
            None => None,
        }
    }

    /// The session with an id, unless it has expired by now.
    pub fn find(&self, session_id: &str) -> (r: Option<&AuthSession>)
        ensures
            exists|now: i64|
                (match r {
                    Some(s) => Some(*s),
                    None => None,
                }) == #[trigger] found(self@, session_id@, now),
            !self@.dom().contains(session_id@) ==> r is None,
    {
        let now: i64 = now_nanos();
        self.find_at(session_id, now)
    }

    /// Every session as an admin listing shows it.
    pub fn list_at(&self, now: i64) -> (r: Vec<SessionView>)
        ensures
            lists(r@, self@, now),
    {
        let mut out: Vec<SessionView> = Vec::new();
        let n: usize = self.sessions.len();
        let ghost pairs = self.sessions.pairs();
        let mut i: usize = 0;
        while i < n
            invariant
                i <= n,
                n == pairs.len(),
                pairs == self.sessions.pairs(),
                out@.len() == i,
                forall|k: int| 0 <= k < i ==> shows(#[trigger] out@[k], pairs[k].1, now),
            decreases n - i,
        {
            out.push(SessionView::of(self.sessions.value_at(i), now));
            i = i + 1;
        }
        proof {
            strmap::lemma_map_of(pairs);
            let ids = Seq::new(pairs.len(), |i: int| pairs[i].0@);
            assert(ids.no_duplicates());
            assert(ids.to_set() =~= self@.dom()) by {
                assert forall|id: Seq<char>| self@.dom().contains(id) implies ids.to_set().contains(
                    id,
                ) by {
                    let i = choose|i: int| 0 <= i < pairs.len() && (#[trigger] pairs[i]).0@ == id;
                    assert(ids[i] == id);
                }
                assert forall|id: Seq<char>| ids.to_set().contains(id) implies self@.dom().contains(
                    id,
                ) by {
                    let i = choose|i: int| 0 <= i < ids.len() && ids[i] == id;
                    assert(pairs[i].0@ == id);
                }
            }
            assert forall|i: int| 0 <= i < ids.len() implies shows(
                #[trigger] out@[i],
                self@[ids[i]],
                now,
            ) by {
                assert(ids[i] == pairs[i].0@);
            }
        }
        out
    }

    /// Every session as an admin listing shows it now.
    pub fn list(&self) -> (r: Vec<SessionView>)
        ensures
            exists|now: i64| #[trigger] lists(r@, self@, now),
    {
        let now: i64 = now_nanos();
        self.list_at(now)
    }

    /// Gives a session a PIN, where it is pending and has not expired.
    pub fn issue_pin_at(&mut self, session_id: &str, now: i64, pin: String) -> (r: bool)
        ensures
            r == (old(self)@.dom().contains(session_id@) && takes_pin(
                old(self)@[session_id@],
                now,
            )),
            final(self)@ == (if r {
                old(self)@.insert(session_id@, with_pin(old(self)@[session_id@], pin, now))
            } else {
                old(self)@
            }),
    {
        let ghost before = self@;
        let fits = match self.sessions.get(session_id) {
            Some(s) => now < s.expires_at && s.status == SessionStatus::Pending,
            None => false,
        };
        if !fits {
            return false;
        }
        match self.sessions.remove(session_id) {
            Some(s) => {
                let mut s = s;
                s.pin = Some(PinInfo { pin, expires_at: later_than(now, PIN_TTL), used: false });
                self.sessions.insert(session_id, s);
                assert(self@ =~= before.insert(session_id@, with_pin(before[session_id@], pin, now)));
                true
            },
            None => false,
        }
    }

    /// Issues a fresh PIN for a session, where it is pending and has not expired by now.
    pub fn issue_pin(&mut self, session_id: &str) -> (r: Option<String>)
        ensures
            exists|now: i64| #[trigger]
                issues_pin(old(self)@, final(self)@, session_id@, r, now),
            !(old(self)@.dom().contains(session_id@) && old(self)@[session_id@].status
                == SessionStatus::Pending) ==> r is None,
            r matches Some(pin) ==> exists|bytes: Seq<u8>|
                bytes.len() == 4 && pin@ == #[trigger] pin_text(bytes),
    {
        let pin = generate_pin();
        let now: i64 = now_nanos();
        let shown = pin.clone();
        let issued = if self.issue_pin_at(session_id, now, pin) {
            Some(shown)
        } else {
            None
        };
        assert(issues_pin(old(self)@, self@, session_id@, issued, now));
        issued
    }

    /// Approves a session with a PIN: it gets the code, and its PIN is used up.
    pub fn approve_at(&mut self, session_id: &str, provided_pin: &str, now: i64, code: String) -> (r:
        Result<ApproveOutcome, ApproveError>)
        ensures
            match r {
                Err(e) => final(self)@ == old(self)@ && e == (if old(self)@.dom().contains(
                    session_id@,
                ) {
                    match approval_error(old(self)@[session_id@], provided_pin@, now) {
                        Some(why) => why,
                        None => e,
                    }
                } else {
                    ApproveError::UnknownSession
                }),
                Ok(outcome) => {
                    let s = old(self)@[session_id@];
                    &&& final(self)@ == old(self)@.insert(session_id@, approved(s, code, now))
                    &&& outcome.authorization_code == code
                    &&& outcome.redirect_uri == s.redirect_uri
                    &&& outcome.state == s.state
                },
            },
            r is Ok <==> old(self)@.dom().contains(session_id@) && approval_error(
                old(self)@[session_id@],
                provided_pin@,
                now,
            ) is None,
    {
        let ghost before = self@;
        match self.sessions.get(session_id) {
            None => {
                return Err(ApproveError::UnknownSession);
            },
            Some(s) => {
                if now >= s.expires_at {
                    return Err(ApproveError::Expired);
                }
                if s.status != SessionStatus::Pending {
                    return Err(ApproveError::AlreadyDecided);
                }
                match &s.pin {
                    None => {
                        return Err(ApproveError::NoPin);
                    },
                    Some(p) => {
                        if p.used || now >= p.expires_at {
                            return Err(ApproveError::PinExpired);
                        }
                        if !same_secret(provided_pin, p.pin.as_str()) {
                            return Err(ApproveError::PinMismatch);
                        }
                    },
                }
            },
        }
        match self.sessions.remove(session_id) {
            Some(s) => {
                let mut s = s;
                let redirect_uri = s.redirect_uri.clone();
                let state = copy_opt(&s.state);
                s.pin = match s.pin {
                    Some(p) => Some(PinInfo { pin: p.pin, expires_at: p.expires_at, used: true }),
                    None => None,
                };
                s.authorization_code = Some(code.clone());
                s.code_expires_at = Some(later_than(now, CODE_TTL));
                s.status = SessionStatus::Approved;
                self.sessions.insert(session_id, s);
                assert(self@ =~= before.insert(
                    session_id@,
                    approved(before[session_id@], code, now),
                ));
                Ok(ApproveOutcome { authorization_code: code, redirect_uri, state })
            },
            None => Err(ApproveError::UnknownSession),
        }
    }

    /// Approves a session with a PIN, and mints its code.
    pub fn approve(&mut self, session_id: &str, provided_pin: &str) -> (r: Result<
        ApproveOutcome,
        ApproveError,
    >)
        ensures
            r matches Err(_) ==> final(self)@ == old(self)@,
            !old(self)@.dom().contains(session_id@) ==> r == Err::<ApproveOutcome, ApproveError>(
                ApproveError::UnknownSession,
            ),
            r matches Err(e) ==> old(self)@.dom().contains(session_id@) ==> exists|now: i64|
                #[trigger] approval_error(old(self)@[session_id@], provided_pin@, now) == Some(e),
            r matches Ok(outcome) ==> old(self)@.dom().contains(session_id@) && exists|now: i64|
                #[trigger] approval_error(old(self)@[session_id@], provided_pin@, now) is None
                    && final(self)@ == old(self)@.insert(
                    session_id@,
                    approved(old(self)@[session_id@], outcome.authorization_code, now),
                ),
            r matches Ok(outcome) ==> outcome.redirect_uri == old(self)@[session_id@].redirect_uri
                && outcome.state == old(self)@[session_id@].state,
            r matches Ok(outcome) ==> exists|bytes: Seq<u8>|
                bytes.len() == 32 && outcome.authorization_code@ == #[trigger] codec::b64url(bytes),
    {
        let code = generate_authorization_code();
        let now: i64 = now_nanos();
        self.approve_at(session_id, provided_pin, now, code)
    }

    /// Denies a pending session.
    pub fn deny(&mut self, session_id: &str) -> (r: bool)
        ensures
            r == (old(self)@.dom().contains(session_id@) && old(self)@[session_id@].status
                == SessionStatus::Pending),
            final(self)@ == (if r {
                old(self)@.insert(
                    session_id@,
                    AuthSession { status: SessionStatus::Denied, ..old(self)@[session_id@] },
                )
            } else {
                old(self)@
            }),
    {
        let ghost before = self@;
        let pending = match self.sessions.get(session_id) {
            Some(s) => s.status == SessionStatus::Pending,
            None => false,
        };
        if !pending {
            return false;
        }
        match self.sessions.remove(session_id) {
            Some(s) => {
                let mut s = s;
                s.status = SessionStatus::Denied;
                self.sessions.insert(session_id, s);
                assert(self@ =~= before.insert(
                    session_id@,
                    AuthSession { status: SessionStatus::Denied, ..before[session_id@] },
                ));
                true
            },
            None => false,
        }
    }

    /// Removes a session.
    pub fn drop_session(&mut self, session_id: &str) -> (r: bool)
        ensures
            final(self)@ == old(self)@.remove(session_id@),
            r == old(self)@.dom().contains(session_id@),
    {
        self.sessions.remove(session_id).is_some()
    }

    /// Exchanges a code: checks it against its session and uses it up.
    pub fn consume_authorization_code_at(
        &mut self,
        code: &str,
        authenticated_client_id: &str,
        redirect_uri: &str,
        code_verifier: &str,
        now: i64,
    ) -> (r: Result<ConsumedCode, CodeExchangeError>)
        ensures
            match r {
                Err(e) => {
                    &&& final(self)@ == old(self)@
                    &&& (e == CodeExchangeError::UnknownCode && forall|id: Seq<char>|
                        old(self)@.dom().contains(id) ==> !holds_code(
                            #[trigger] old(self)@[id],
                            code@,
                        )) || exists|id: Seq<char>|
                        old(self)@.dom().contains(id) && holds_code(
                            #[trigger] old(self)@[id],
                            code@,
                        ) && exchange_error(
                            old(self)@[id],
                            authenticated_client_id@,
                            redirect_uri@,
                            code_verifier@,
                            now,
                        ) == Some(e)
                },
                Ok(c) => exists|id: Seq<char>|
                    old(self)@.dom().contains(id) && holds_code(#[trigger] old(self)@[id], code@)
                        && exchange_error(
                        old(self)@[id],
                        authenticated_client_id@,
                        redirect_uri@,
                        code_verifier@,
                        now,
                    ) is None && final(self)@ == old(self)@.insert(id, consumed(old(self)@[id]))
                        && c.client_id == old(self)@[id].client_id && c.scope
                        == old(self)@[id].scope,
            },
    {
        let ghost before = self@;
        let test = |s: &AuthSession| -> (b: bool)
            ensures
                b == holds_code(*s, code@),
        {
            has_code(s, code)
        };
        let holder = self.sessions.find_key(test, Ghost(|s: AuthSession| holds_code(s, code@)));
        let id = match holder {
            Some(id) => id,
            None => {
                return Err(CodeExchangeError::UnknownCode);
            },
        };
        match self.sessions.get(id.as_str()) {
            None => {
                return Err(CodeExchangeError::UnknownCode);
            },
            Some(s) => {
                assert(*s == before[id@]);
                if now >= s.expires_at || s.status != SessionStatus::Approved {
                    return Err(CodeExchangeError::UnknownCode);
                }
                match s.code_expires_at {
                    Some(expires) => {
                        if now >= expires {
                            return Err(CodeExchangeError::CodeExpired);
                        }
                    },
                    None => {
                        return Err(CodeExchangeError::UnknownCode);
                    },
                }
                if !same(s.client_id.as_str(), authenticated_client_id) {
                    return Err(CodeExchangeError::ClientMismatch);
                }
                if !same(s.redirect_uri.as_str(), redirect_uri) {
                    return Err(CodeExchangeError::RedirectUriMismatch);
                }
                if !verify_pkce_s256(code_verifier, s.code_challenge.as_str()) {
                    return Err(CodeExchangeError::PkceMismatch);
                }
            },
        }
        match self.sessions.remove(id.as_str()) {
            Some(s) => {
                let mut s = s;
                s.status = SessionStatus::Consumed;
                s.authorization_code = None;
                s.code_expires_at = None;
                let client_id = s.client_id.clone();
                let scope = copy_opt(&s.scope);
                self.sessions.insert(id.as_str(), s);
                assert(self@ =~= before.insert(id@, consumed(before[id@])));
                assert(holds_code(before[id@], code@));
                Ok(ConsumedCode { client_id, scope })
            },
            None => Err(CodeExchangeError::UnknownCode),
        }
    }

    /// Exchanges a code now.
    pub fn consume_authorization_code(
        &mut self,
        code: &str,
        authenticated_client_id: &str,
        redirect_uri: &str,
        code_verifier: &str,
    ) -> (r: Result<ConsumedCode, CodeExchangeError>)
        ensures
            r is Err ==> final(self)@ == old(self)@,
            (forall|id: Seq<char>|
                old(self)@.dom().contains(id) ==> !holds_code(#[trigger] old(self)@[id], code@))
                ==> r == Err::<ConsumedCode, CodeExchangeError>(CodeExchangeError::UnknownCode),
            r matches Err(e) ==> (e == CodeExchangeError::UnknownCode && forall|id: Seq<char>|
                old(self)@.dom().contains(id) ==> !holds_code(#[trigger] old(self)@[id], code@))
                || exists|id: Seq<char>, now: i64|
                old(self)@.dom().contains(id) && holds_code(#[trigger] old(self)@[id], code@)
                    && #[trigger] exchange_error(
                    old(self)@[id],
                    authenticated_client_id@,
                    redirect_uri@,
                    code_verifier@,
                    now,
                ) == Some(e),
            r matches Ok(c) ==> exists|id: Seq<char>, now: i64|
                old(self)@.dom().contains(id) && holds_code(#[trigger] old(self)@[id], code@)
                    && #[trigger] exchange_error(
                    old(self)@[id],
                    authenticated_client_id@,
                    redirect_uri@,
                    code_verifier@,
                    now,
                ) is None && final(self)@ == old(self)@.insert(id, consumed(old(self)@[id]))
                    && c.client_id == old(self)@[id].client_id && c.scope == old(self)@[id].scope,
    {
        let now: i64 = now_nanos();
        self.consume_authorization_code_at(
            code,
            authenticated_client_id,
            redirect_uri,
            code_verifier,
            now,
        )
    }

    /// Evicts expired sessions, and tells how many they were.
    pub fn sweep_at(&mut self, now: i64) -> (r: usize)
        ensures
            final(self)@ == unexpired(old(self)@, now),
            r == old(self)@.dom().len() - final(self)@.dom().len(),
    {
        let live = |s: &AuthSession| -> (b: bool)
            ensures
                b == (now < s.expires_at),
        {
            now < s.expires_at
        };
        self.sessions.retain(live, Ghost(|s: AuthSession| now < s.expires_at))
    }

    /// Evicts the sessions that have expired by now.
    pub fn sweep(&mut self) -> (r: usize)
        ensures
            exists|now: i64| final(self)@ == #[trigger] unexpired(old(self)@, now),
            r == old(self)@.dom().len() - final(self)@.dom().len(),
    {
        let now: i64 = now_nanos();
        self.sweep_at(now)
    }
}

// ── More laws ───────────────────────────────────────────────────────────

/// A new session is what was asked for: it keeps the client, the address to return to, the state,
/// the challenge and the scope, lasts ten minutes, and nothing is granted in it yet.
pub proof fn law_new_session_keeps_its_request(
    req: AuthorizeRequest,
    session_id: String,
    now: i64,
    then: i64,
    pin: Seq<char>,
    client_id: Seq<char>,
    redirect_uri: Seq<char>,
    verifier: Seq<char>,
)
    ensures
        ({
            let s = fresh_session(req, session_id, now);
            &&& s.session_id == session_id
            &&& s.client_id == req.client_id
            &&& s.redirect_uri == req.redirect_uri
            &&& s.state == req.state
            &&& s.code_challenge == req.code_challenge
            &&& s.code_challenge_method == req.code_challenge_method
            &&& s.scope == req.scope
            &&& s.created_at == now
            &&& now <= i64::MAX - 600_000_000_000 ==> s.expires_at == now + 600_000_000_000
            &&& approval_error(s, pin, then) is Some
            &&& exchange_error(s, client_id, redirect_uri, verifier, then) is Some
            &&& takes_pin(s, then) <==> then < s.expires_at
        }),
{
}

/// The PIN that was issued approves its session, for five minutes and while the session lasts; any
/// other PIN is refused.
pub proof fn law_issued_pin_approves(s: AuthSession, pin: String, other: Seq<char>, now: i64, then: i64)
    requires
        takes_pin(s, now),
        now <= i64::MAX - 300_000_000_000,
        now <= then,
    ensures
        approval_error(with_pin(s, pin, now), pin@, then) is None <==> then < now + 300_000_000_000
            && then < s.expires_at,
        other != pin@ ==> approval_error(with_pin(s, pin, now), other, then) is Some,
        other != pin@ && then < now + 300_000_000_000 && then < s.expires_at ==> approval_error(
            with_pin(s, pin, now),
            other,
            then,
        ) == Some(ApproveError::PinMismatch),
{
}

/// Approval changes nothing of what was asked for: the code belongs to the same client, address,
/// challenge and scope, and holds for a minute.
pub proof fn law_approval_keeps_the_request(s: AuthSession, code: String, now: i64)
    ensures
        ({
            let a = approved(s, code, now);
            &&& a.client_id == s.client_id
            &&& a.redirect_uri == s.redirect_uri
            &&& a.state == s.state
            &&& a.code_challenge == s.code_challenge
            &&& a.scope == s.scope
            &&& a.expires_at == s.expires_at
            &&& a.status == SessionStatus::Approved
            &&& a.authorization_code == Some(code)
            &&& now <= i64::MAX - 60_000_000_000 ==> a.code_expires_at == Some(
                (now + 60_000_000_000) as i64,
            )
        }),
        consumed(s).client_id == s.client_id,
        consumed(s).scope == s.scope,
        consumed(s).authorization_code is None,
{
}

/// A session is found until it expires, and only under its own id.
pub proof fn law_session_is_found_until_it_expires(
    m: Map<Seq<char>, AuthSession>,
    s: AuthSession,
    other: Seq<char>,
    now: i64,
)
    ensures
        ({
            let after = m.insert(s.session_id@, s);
            &&& now < s.expires_at ==> found(after, s.session_id@, now) == Some(s)
            &&& now >= s.expires_at ==> found(after, s.session_id@, now) is None
            &&& other != s.session_id@ ==> found(after, other, now) == found(m, other, now)
        }),
{
}

/// A sweep takes away exactly the sessions that have expired.
pub proof fn law_sweep_keeps_live_sessions(m: Map<Seq<char>, AuthSession>, id: Seq<char>, now: i64)
    ensures
        unexpired(m, now).dom().contains(id) <==> m.dom().contains(id) && now < m[id].expires_at,
        unexpired(m, now).dom().contains(id) ==> unexpired(m, now)[id] == m[id],
{
}

/// A challenge is met by the verifier that it was made from, and a verifier meets no other
/// challenge.
pub proof fn law_verifier_meets_one_challenge(verifier: Seq<char>, challenge: Seq<char>)
    ensures
        pkce_matches(verifier, codec::b64url(codec::sha256(codec::utf8(verifier)))),
        challenge != codec::b64url(codec::sha256(codec::utf8(verifier))) ==> !pkce_matches(
            verifier,
            challenge,
        ),
{
}

proof fn lemma_zeros_count_for_nothing(zeros: Seq<char>, digits: Seq<char>)
    requires
        forall|i: int| 0 <= i < zeros.len() ==> #[trigger] zeros[i] == '0',
    ensures
        text::digits_value(zeros + digits) == text::digits_value(digits),
    decreases zeros.len() + digits.len(),
{
    if digits.len() > 0 {
        lemma_zeros_count_for_nothing(zeros, digits.drop_last());
        assert((zeros + digits).drop_last() =~= zeros + digits.drop_last());
        assert((zeros + digits).last() == digits.last());
    } else if zeros.len() > 0 {
        assert(zeros + digits =~= zeros);
        let front = zeros.drop_last();
        assert forall|i: int| 0 <= i < front.len() implies #[trigger] front[i] == '0' by {
            assert(front[i] == zeros[i]);
        }
        lemma_zeros_count_for_nothing(front, seq![]);
        assert(front + Seq::<char>::empty() =~= front);
        assert(zeros.last() == zeros[zeros.len() - 1]);
    } else {
        assert(zeros + digits =~= digits);
    }
}

/// A PIN is the number that was drawn, cut to six digits.
pub proof fn law_pin_is_the_number_drawn(bytes: Seq<u8>)
    requires
        bytes.len() == 4,
    ensures
        text::digits_value(pin_text(bytes)) == (bytes[0] + 0x100 * bytes[1] + 0x1_0000 * bytes[2]
            + 0x100_0000 * bytes[3]) % 1_000_000,
{
    let n = (le_number(bytes) % 1_000_000) as nat;
    let zeros = Seq::new((6 - text::decimal(n).len()) as nat, |i: int| '0');
    lemma_zeros_count_for_nothing(zeros, text::decimal(n));
    text::lemma_decimal_digits(n);
}

/// A session goes by the bytes that were drawn for it: other bytes make another name.
pub proof fn law_sessions_have_their_own_names(a: Seq<u8>, b: Seq<u8>)
    requires
        session_id_text(a) == session_id_text(b),
    ensures
        a == b,
{
    let p = "sess_"@;
    assert(session_id_text(a).skip(p.len() as int) =~= codec::hex(a));
    assert(session_id_text(b).skip(p.len() as int) =~= codec::hex(b));
    codec::law_hex_tells_bytes_apart(a, b);
}

/// Why a session can not be approved is told by what is wrong with it, the session before the PIN.
pub proof fn law_refused_approval_says_why(s: AuthSession, pin: Seq<char>, now: i64)
    ensures
        now >= s.expires_at ==> approval_error(s, pin, now) == Some(ApproveError::Expired),
        now < s.expires_at && s.status != SessionStatus::Pending ==> approval_error(s, pin, now) == Some(
            ApproveError::AlreadyDecided,
        ),
        takes_pin(s, now) && s.pin is None ==> approval_error(s, pin, now) == Some(ApproveError::NoPin),
        takes_pin(s, now) ==> (s.pin matches Some(p) ==> (p.used || now >= p.expires_at)
            ==> approval_error(s, pin, now) == Some(ApproveError::PinExpired)),
{
}

/// Why a code can not be exchanged is told by what does not match.
pub proof fn law_refused_exchange_says_why(
    s: AuthSession,
    client_id: Seq<char>,
    redirect_uri: Seq<char>,
    verifier: Seq<char>,
    now: i64,
    expires: i64,
)
    requires
        now < s.expires_at,
        s.status == SessionStatus::Approved,
        s.code_expires_at == Some(expires),
    ensures
        ({
            let e = exchange_error(s, client_id, redirect_uri, verifier, now);
            &&& now >= expires ==> e == Some(CodeExchangeError::CodeExpired)
            &&& now < expires && s.client_id@ != client_id ==> e == Some(
                CodeExchangeError::ClientMismatch,
            )
            &&& now < expires && s.client_id@ == client_id && s.redirect_uri@ != redirect_uri ==> e
                == Some(CodeExchangeError::RedirectUriMismatch)
            &&& now < expires && s.client_id@ == client_id && s.redirect_uri@ == redirect_uri
                && !pkce_matches(verifier, s.code_challenge@) ==> e == Some(
                CodeExchangeError::PkceMismatch,
            )
        }),
{
}

/// An issued PIN approves its session and no other changes; where none is issued, nothing does.
pub proof fn law_issuing_touches_one_session(
    before: Map<Seq<char>, AuthSession>,
    after: Map<Seq<char>, AuthSession>,
    session_id: Seq<char>,
    pin: Option<String>,
    now: i64,
    other: Seq<char>,
)
    requires
        issues_pin(before, after, session_id, pin, now),
        now < i64::MAX - 300_000_000_000,
    ensures
        pin matches Some(p) ==> after.dom().contains(session_id) && approval_error(
            after[session_id],
            p@,
            now,
        ) is None,
        pin is None ==> after == before,
        pin is None && before.dom().contains(session_id) ==> now >= before[session_id].expires_at
            || before[session_id].status != SessionStatus::Pending,
        other != session_id ==> (after.dom().contains(other) <==> before.dom().contains(other))
            && after[other] == before[other],
{
}

} // verus!
