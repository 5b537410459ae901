//! Identifiers and the clock: UUIDs as 128-bit numbers, time as Unix seconds.
use vstd::prelude::*;
use vstd::arithmetic::power::pow;

verus! {

/// A lower-case hexadecimal digit.
pub open spec fn hex_char(n: int) -> char {
    seq!['0', '1', '2', '3', '4', '5', '6', '7', '8', '9', 'a', 'b', 'c', 'd', 'e', 'f'][n]
}

/// The `k`-th of the 32 hexadecimal digits of `id`, most significant first.
pub open spec fn uuid_nibble(id: u128, k: int) -> int {
    (id as int / pow(16, (31 - k) as nat)) % 16
}

/// How many hyphens the text of a UUID holds before position `i`.
pub open spec fn hyphens_before(i: int) -> int {
    if i <= 8 { 0 } else if i <= 13 { 1 } else if i <= 18 { 2 } else if i <= 23 { 3 } else { 4 }
}

/// The hyphenated lower-case text of a UUID: 32 hexadecimal digits, most
/// significant first, grouped 8-4-4-4-12.
pub open spec fn uuid_text(id: u128) -> Seq<char> {
    Seq::new(36, |i: int|
        if i == 8 || i == 13 || i == 18 || i == 23 { '-' } else { hex_char(uuid_nibble(id, i - hyphens_before(i))) })
}

/// The UUID that a text denotes, in any of the forms that the uuid crate reads.
pub uninterp spec fn parsed_uuid(s: Seq<char>) -> Option<u128>;

/// Relies on uuid's `Display` for `Uuid`: the hyphenated lower-case form, which
/// `Uuid::parse_str` reads back as the same id.
#[verifier::external_body]
pub(crate) fn uuid_to_text(id: u128) -> (r: String)
    ensures
        r@ == uuid_text(id),
        parsed_uuid(r@) == Some(id),
{
    uuid::Uuid::from_u128(id).to_string()
}

/// Relies on uuid's `Uuid::parse_str`: `None` where the text is no UUID.
#[verifier::external_body]
pub(crate) fn uuid_from_text(s: &str) -> (r: Option<u128>)
    ensures
        r == parsed_uuid(s@),
{
    uuid::Uuid::parse_str(s).ok().map(|u| u.as_u128())
}

/// Relies on uuid's `Uuid::new_v4`: a random identifier, of which nothing is promised.
#[verifier::external_body]
pub(crate) fn random_id() -> (r: u128) {
    uuid::Uuid::new_v4().as_u128()
}

/// Relies on chrono's `Utc::now`: the current Unix time in seconds, of which nothing is promised.
#[verifier::external_body]
pub(crate) fn now_timestamp() -> (r: i64) {
    chrono::Utc::now().timestamp()
}

/// The Unix time `age` seconds after `now`, held at the largest time that fits.
pub open spec fn expiry_after(now: i64, age: u64) -> i64 {
    if now + age > i64::MAX {
        i64::MAX
    } else {
        (now + age) as i64
    }
}

/// The Unix time `age` seconds after `now`, held at the largest time that fits.
pub fn expires_at(now: i64, age: u64) -> (r: i64)
    ensures
        r == expiry_after(now, age),
{
    let t: i128 = now as i128 + age as i128;
    if t > i64::MAX as i128 {
        i64::MAX
    } else {
        t as i64
    }
}

} // verus!
