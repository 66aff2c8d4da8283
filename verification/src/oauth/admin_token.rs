//! The token of the local admin interface.

use vstd::prelude::*;

use crate::chance::random_bytes;
use crate::codec;
use crate::codec::b64url_encode;
use crate::paths;
use crate::paths::join_path;
use crate::plugin::config;
use crate::plugin::config::state_dir;
use crate::text;

verus! {

/// Path of the admin-token file of an agent instance.
pub fn admin_token_path(home: Option<&str>, agent_name: &str) -> (r: String)
    ensures
        r@ == paths::joined_path(
            config::state_path(text::opt_slice(home), agent_name@),
            "admin.token"@,
        ),
{
    let dir = state_dir(home, agent_name);
    join_path(dir.as_str(), "admin.token")
}

/// A fresh token: 32 random bytes in URL-safe base64.
pub fn generate_admin_token() -> (r: String)
    ensures
        exists|bytes: Seq<u8>| bytes.len() == 32 && r@ == #[trigger] codec::b64url(bytes),
        r@.len() == 43,
        forall|i: int| 0 <= i < r@.len() ==> codec::is_url_safe(#[trigger] r@[i]),
{
    let bytes = random_bytes(32);
    b64url_encode(bytes.as_slice())
}

} // verus!
