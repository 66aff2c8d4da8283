//! An agent's entry in the keychain.

use vstd::prelude::*;
use vstd::string::*;

use crate::paths;
use crate::paths::join_path;
use crate::text;
use crate::text::replace;

verus! {

/// The service under which every entry stands.
pub const SERVICE_NAME: &'static str = "gosh";

/// What an entry holds.  An entry may lack any of these.
#[derive(Debug)]
pub struct AgentSecrets {
    pub principal_token: Option<String>,
    pub join_token: Option<String>,
    /// X25519 private key, 32 bytes in base64.
    pub secret_key: Option<String>,
}

/// The account of an agent instance.
pub open spec fn account(name: Seq<char>) -> Seq<char> {
    "agent/"@ + name
}

/// The account of an agent instance.
pub fn account_of(name: &str) -> (r: String)
    ensures
        r@ == account(name@),
{
    let mut out = "agent/".to_owned();
    out.append(name);
    out
}

/// The file that stands for an account where a directory takes the keychain's place.
pub fn file_of(dir: &str, account: &str) -> (r: String)
    ensures
        r@ == paths::joined_path(dir@, text::replaced(account@, '/', "_"@) + ".json"@),
{
    let mut name = replace(account, '/', "_");
    name.append(".json");
    join_path(dir, name.as_str())
}

} // verus!
