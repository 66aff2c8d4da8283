//! The clock and randomness.  What comes from here differs from call to call: the functions that
//! work with it take it as an argument.

use aes_gcm::aead::rand_core::RngCore;
use vstd::prelude::*;
use vstd::string::*;

verus! {

/// `chrono::Utc::now`, in nanoseconds since 1970.  What the time is, is not said.
#[verifier::external_body]
pub(crate) fn now_nanos() -> i64 {
    chrono::Utc::now().timestamp_nanos_opt().unwrap_or(i64::MAX)
}

/// The RFC 3339 form of an instant.
pub uninterp spec fn rfc3339(nanos: i64) -> Seq<char>;

/// `chrono::DateTime::to_rfc3339`: the form of an instant that is given in nanoseconds since
/// 1970.
#[verifier::external_body]
pub(crate) fn rfc3339_of(nanos: i64) -> (r: String)
    ensures
        r@ == rfc3339(nanos),
{
    chrono::DateTime::from_timestamp_nanos(nanos).to_rfc3339()
}

/// The current time in RFC 3339 form.
pub fn now_rfc3339() -> (r: String)
    ensures
        exists|now: i64| r@ == #[trigger] rfc3339(now),
{
    let now: i64 = now_nanos();
    rfc3339_of(now)
}

/// `OsRng.fill_bytes`: so many bytes from the operating system's generator.  Which bytes they
/// are, is not said.
#[verifier::external_body]
pub(crate) fn random_bytes(n: usize) -> (r: Vec<u8>)
    ensures
        r@.len() == n,
{
    let mut bytes = vec![0u8; n];
    aes_gcm::aead::OsRng.fill_bytes(&mut bytes);
    bytes
}

/// A hexadecimal digit in lower case.
pub open spec fn is_hex_digit(c: char) -> bool {
    '0' <= c <= '9' || 'a' <= c <= 'f'
}

/// A UUID in its usual form: 36 characters, hexadecimal digits but for four hyphens.
pub open spec fn is_uuid(s: Seq<char>) -> bool {
    s.len() == 36 && forall|i: int|
        0 <= i < 36 ==> if i == 8 || i == 13 || i == 18 || i == 23 {
            #[trigger] s[i] == '-'
        } else {
            is_hex_digit(s[i])
        }
}

/// `uuid::Uuid::new_v4` and its text: a UUID in hyphenated lower-case form.  Which one it is, is
/// not said.
#[verifier::external_body]
pub(crate) fn new_uuid() -> (r: String)
    ensures
        is_uuid(r@),
{
    uuid::Uuid::new_v4().to_string()
}

/// An instant so many nanoseconds later.  The last instant that can be told stays.
pub open spec fn later(now: i64, nanos: int) -> int {
    if now + nanos > i64::MAX {
        i64::MAX as int
    } else {
        now + nanos
    }
}

/// An instant so many nanoseconds later.
pub fn later_than(now: i64, nanos: i64) -> (r: i64)
    requires
        0 <= nanos,
    ensures
        r == later(now, nanos as int),
{
    if now > i64::MAX - nanos {
        i64::MAX
    } else {
        now + nanos
    }
}

/// A moment later is later by as much as was asked for, as far as time goes.
pub proof fn law_later_is_later(now: i64, nanos: int)
    ensures
        now + nanos <= i64::MAX ==> later(now, nanos) == now + nanos,
        nanos >= 0 ==> now <= later(now, nanos) <= i64::MAX,
{
}

} // verus!
