//! Fresh identifiers and time stamps, from the `uuid` and `chrono` crates.

use vstd::prelude::*;

verus! {

/// A lower-case hexadecimal digit.
pub open spec fn is_lower_hex(c: char) -> bool {
    ('0' <= c && c <= '9') || ('a' <= c && c <= 'f')
}

/// The text of a random (version 4) UUID: 36 characters, hyphens at 8, 13,
/// 18 and 23, lower-case hexadecimal digits elsewhere, the version digit 4
/// at 14 and a variant digit of 8, 9, a or b at 19.
pub open spec fn uuid_v4_text(s: Seq<char>) -> bool {
    &&& s.len() == 36
    &&& forall|i: int|
        0 <= i < 36 ==> if i == 8 || i == 13 || i == 18 || i == 23 {
            s[i] == '-'
        } else {
            is_lower_hex(#[trigger] s[i])
        }
    &&& s[14] == '4'
    &&& (s[19] == '8' || s[19] == '9' || s[19] == 'a' || s[19] == 'b')
}

/// A fresh random identifier: `uuid::Uuid::new_v4()` rendered by its
/// `Display`, which writes the hyphenated lower-case form with the version
/// and variant bits that `new_v4` sets. The value itself is random and not
/// promised. `new_v4` panics only if the system's random source fails.
#[verifier::external_body]
pub fn new_id() -> (id: String)
    ensures
        uuid_v4_text(id@),
{
    uuid::Uuid::new_v4().to_string()
}

/// RFC 3339 text of a UTC time as `chrono` writes it: at least the 25
/// characters of `YYYY-MM-DDTHH:MM:SS+00:00`, ending in the `+00:00` offset.
pub open spec fn utc_timestamp_text(s: Seq<char>) -> bool {
    &&& s.len() >= 25
    &&& s.subrange(s.len() - 6, s.len() as int) == seq!['+', '0', '0', ':', '0', '0']
}

/// The current time as an RFC 3339 string: `chrono::Utc::now().to_rfc3339()`.
/// `to_rfc3339` writes the date, `T`, the time, any fraction of a second
/// and the offset, which for `Utc` is `+00:00`; that shape is promised. The
/// time itself depends on the clock and is not. `Utc::now` panics only if
/// the system clock is set before 1970.
#[verifier::external_body]
pub fn utc_now_rfc3339() -> (s: String)
    ensures
        utc_timestamp_text(s@),
{
    chrono::Utc::now().to_rfc3339()
}

} // verus!
