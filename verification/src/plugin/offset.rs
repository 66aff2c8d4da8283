//! How far a session has been captured.

use vstd::prelude::*;
use vstd::string::*;

use crate::paths;
use crate::paths::join_path;
use crate::plugin::config;
use crate::plugin::config::state_dir;
use crate::text;
use crate::text::is_alphanumeric;

verus! {

/// How far a session has been captured.
#[derive(Debug, Clone, Copy, PartialEq, Eq, Structural)]
pub struct SessionOffset {
    /// How much of the transcript has been read.
    pub byte_offset: u64,
    /// How many prompts there were.
    pub turn_count: u32,
}

impl Default for SessionOffset {
    fn default() -> (r: Self)
        ensures
            r == (SessionOffset { byte_offset: 0, turn_count: 0 }),
    {
        SessionOffset { byte_offset: 0, turn_count: 0 }
    }
}

/// A character as it stands in a file's name.
pub open spec fn safe_char(c: char) -> char {
    if text::alphanumeric(c) || c == '-' || c == '_' {
        c
    } else {
        '_'
    }
}

/// A session's id as it stands in a file's name.
pub open spec fn safe_id(session_id: Seq<char>) -> Seq<char> {
    session_id.map_values(|c: char| safe_char(c))
}

/// Where it is kept how far a session has been captured.
pub open spec fn offset_file(home: Option<Seq<char>>, agent_name: Seq<char>, session_id: Seq<char>) -> Seq<
    char,
> {
    paths::joined_path(
        paths::joined_path(config::state_path(home, agent_name), "offsets"@),
        safe_id(session_id) + ".json"@,
    )
}

/// Where it is kept how far a session has been captured.
pub fn offset_path(home: Option<&str>, agent_name: &str, session_id: &str) -> (r: String)
    ensures
        r@ == offset_file(text::opt_slice(home), agent_name@, session_id@),
        !safe_id(session_id@).contains('/'),
{
    let chars = text::chars_of(session_id);
    let mut safe: Vec<char> = Vec::new();
    let mut i: usize = 0;
    while i < chars.len()
        invariant
            i <= chars.len(),
            chars@ == session_id@,
            safe@ == safe_id(session_id@).take(i as int),
            forall|k: int| 0 <= k < i ==> #[trigger] safe@[k] != '/',
        decreases chars.len() - i,
    {
        let c = chars[i];
        if is_alphanumeric(c) || c == '-' || c == '_' {
            safe.push(c);
        } else {
            safe.push('_');
        }
        assert(safe@ =~= safe_id(session_id@).take(i + 1));
        i = i + 1;
    }
    assert(safe_id(session_id@).take(i as int) =~= safe_id(session_id@));
    let mut name = text::string_of(&safe, 0, safe.len());
    assert(safe@.subrange(0, safe@.len() as int) =~= safe@);
    name.append(".json");
    let state = state_dir(home, agent_name);
    let dir = join_path(state.as_str(), "offsets");
    join_path(dir.as_str(), name.as_str())
}

/// Sessions are kept apart: an id of letters, digits, dashes and underscores is its own file name.
pub proof fn law_plain_id_is_its_own_name(session_id: Seq<char>)
    requires
        forall|i: int|
            0 <= i < session_id.len() ==> text::alphanumeric(#[trigger] session_id[i])
                || session_id[i] == '-' || session_id[i] == '_',
    ensures
        safe_id(session_id) == session_id,
{
    assert(safe_id(session_id) =~= session_id);
}

/// What was read of a session is noted in a file of its own name.
pub proof fn law_session_has_its_own_file(
    home: Option<Seq<char>>,
    agent_name: Seq<char>,
    session_id: Seq<char>,
)
    requires
        session_id.len() > 0,
        !text::alphanumeric('/'),
    ensures
        text::has_suffix(offset_file(home, agent_name, session_id), safe_id(session_id) + ".json"@),
        safe_id(session_id).len() == session_id.len(),
{
    reveal_strlit("/");
    let name = safe_id(session_id) + ".json"@;
    assert(name[0] == safe_char(session_id[0]));
    assert(name.subrange(0, 1)[0] == name[0]);
    paths::law_path_is_joined(
        paths::joined_path(config::state_path(home, agent_name), "offsets"@),
        name,
    );
}

} // verus!
