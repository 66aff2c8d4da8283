//! Paths as texts.

use vstd::prelude::*;
use vstd::string::*;

use crate::text;
use crate::text::ends_with;
use crate::text::starts_with;

verus! {

/// A path with one more part: an absolute part takes the place of the path.
pub open spec fn joined_path(base: Seq<char>, part: Seq<char>) -> Seq<char> {
    if text::has_prefix(part, "/"@) {
        part
    } else if base.len() == 0 || text::has_suffix(base, "/"@) {
        base + part
    } else {
        base + "/"@ + part
    }
}

/// A path with one more part.
pub fn join_path(base: &str, part: &str) -> (r: String)
    ensures
        r@ == joined_path(base@, part@),
{
    if starts_with(part, "/") {
        return part.to_owned();
    }
    let mut out = base.to_owned();
    if base.unicode_len() != 0 && !ends_with(base, "/") {
        out.append("/");
    }
    out.append(part);
    assert(base@.len() == 0 ==> base@ + part@ =~= part@);
    out
}

/// The home directory, or `~` where it is not known.
pub open spec fn home_or_tilde(home: Option<Seq<char>>) -> Seq<char> {
    match home {
        Some(h) => h,
        None => "~"@,
    }
}

/// The directory that every agent on this machine lives in.
pub open spec fn base_path(home: Option<Seq<char>>) -> Seq<char> {
    joined_path(joined_path(home_or_tilde(home), ".gosh"@), "agent"@)
}

/// The directory that every agent on this machine lives in: `~/.gosh/agent`.
pub fn base_dir(home: Option<&str>) -> (r: String)
    ensures
        r@ == base_path(text::opt_slice(home)),
{
    let top = match home {
        Some(h) => h,
        None => "~",
    };
    let gosh = join_path(top, ".gosh");
    join_path(gosh.as_str(), "agent")
}

/// A path is joined behind its directory: it begins with the one and ends with the other, unless
/// it stands for itself.
pub proof fn law_path_is_joined(base: Seq<char>, part: Seq<char>)
    ensures
        text::has_prefix(part, "/"@) ==> joined_path(base, part) == part,
        !text::has_prefix(part, "/"@) ==> text::has_prefix(joined_path(base, part), base)
            && text::has_suffix(joined_path(base, part), part),
        !text::has_prefix(part, "/"@) && base.len() > 0 && !text::has_suffix(base, "/"@)
            ==> joined_path(base, part) == base + "/"@ + part,
{
    let j = joined_path(base, part);
    if !text::has_prefix(part, "/"@) {
        assert(j.subrange(0, base.len() as int) =~= base);
        assert(j.subrange(j.len() - part.len(), j.len() as int) =~= part);
    }
}

} // verus!
