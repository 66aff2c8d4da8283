//! What an agent knows of its memory server.

use vstd::prelude::*;
use vstd::string::*;

use crate::join::JoinToken;
use crate::text::copy_opt;

verus! {

#[derive(Debug)]
pub struct MemoryAuthState {
    pub memory_url: String,
    pub transport_token: Option<String>,
    pub principal_id: Option<String>,
    pub principal_token: Option<String>,
    pub tls_fingerprint: Option<String>,
    pub tls_ca: Option<String>,
}

/// What a join token says of its server.
pub open spec fn joined_state(token: JoinToken) -> MemoryAuthState {
    MemoryAuthState {
        memory_url: token.url,
        transport_token: token.transport_token,
        principal_id: token.principal_id,
        principal_token: token.principal_token,
        tls_fingerprint: token.fingerprint,
        tls_ca: token.ca,
    }
}

impl MemoryAuthState {
    pub fn from_join_token(token: &JoinToken) -> (r: Self)
        ensures
            r == joined_state(*token),
    {
        MemoryAuthState {
            memory_url: token.url.clone(),
            transport_token: copy_opt(&token.transport_token),
            principal_id: copy_opt(&token.principal_id),
            principal_token: copy_opt(&token.principal_token),
            tls_fingerprint: copy_opt(&token.fingerprint),
            tls_ca: copy_opt(&token.ca),
        }
    }
}

/// What is kept of a join token is all that it says.
pub proof fn law_join_token_is_kept(token: JoinToken)
    ensures
        joined_state(token).memory_url == token.url,
        joined_state(token).transport_token == token.transport_token,
        joined_state(token).principal_id == token.principal_id,
        joined_state(token).principal_token == token.principal_token,
        joined_state(token).tls_fingerprint == token.fingerprint,
        joined_state(token).tls_ca == token.ca,
{
}

} // verus!
