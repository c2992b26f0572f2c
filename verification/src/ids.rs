//! Identifiers: 128-bit UUIDs, held as `u128` and written as 32 hexadecimal digits.
//!
//! Parsing, formatting and generation are done by the `uuid` crate; this module
//! states what its functions return.

use crate::text::{all_hex, code, hex32, hex_number};
use vstd::prelude::*;

verus! {

/// The error of the `uuid` crate.
#[verifier::external_type_specification]
#[verifier::external_body]
pub struct ExUuidError(uuid::Error);

/// The lower-case form of an ASCII letter; any other character unchanged.
pub open spec fn ascii_lower(c: char) -> char {
    if 0x41 <= code(c) <= 0x5A {
        (code(c) + 0x20) as char
    } else {
        c
    }
}

/// Whether `s` reads `urn:uuid:`, in any mix of upper and lower case.
pub open spec fn is_urn_prefix(s: Seq<char>) -> bool {
    s.map_values(|c: char| ascii_lower(c)) == seq!['u', 'r', 'n', ':', 'u', 'u', 'i', 'd', ':']
}

/// The 32 characters that a hyphenated UUID text holds beside its four hyphens.
pub open spec fn hyphenated_digits(s: Seq<char>) -> Option<Seq<char>> {
    if s.len() == 36 && s[8] == '-' && s[13] == '-' && s[18] == '-' && s[23] == '-' {
        Some(
            s.subrange(0, 8) + s.subrange(9, 13) + s.subrange(14, 18) + s.subrange(19, 23)
                + s.subrange(24, 36),
        )
    } else {
        None
    }
}

/// The 32 characters that stand for the digits in a UUID text of one of the four accepted
/// shapes: simple, hyphenated, braced, or URN.
pub open spec fn uuid_digits(s: Seq<char>) -> Option<Seq<char>> {
    if s.len() == 32 {
        Some(s)
    } else if s.len() == 36 {
        hyphenated_digits(s)
    } else if s.len() == 38 && s[0] == '{' && s[37] == '}' {
        hyphenated_digits(s.subrange(1, 37))
    } else if s.len() == 45 && is_urn_prefix(s.subrange(0, 9)) {
        hyphenated_digits(s.subrange(9, 45))
    } else {
        None
    }
}

/// The value that a UUID text denotes, if it is one.
pub open spec fn uuid_value(s: Seq<char>) -> Option<u128> {
    match uuid_digits(s) {
        Some(d) => if all_hex(d) {
            Some(hex_number(d) as u128)
        } else {
            None
        },
        None => None,
    }
}

/// The number that `bytes` write in base 256, most significant byte first.
pub open spec fn big_endian(bytes: Seq<u8>) -> nat
    decreases bytes.len(),
{
    if bytes.len() == 0 {
        0
    } else {
        big_endian(bytes.drop_last()) * 256 + bytes.last() as nat
    }
}

/// The version that a UUID carries: the high four bits of its seventh byte.
pub open spec fn uuid_version(v: u128) -> u128 {
    (v >> 76) & 0xf
}

/// `uuid::Uuid::parse_str`: accepts the simple, hyphenated, braced and URN forms, with
/// hexadecimal digits of either case, and returns the value that the 32 digits write.
#[verifier::external_body]
pub(crate) fn parse_uuid(input: &str) -> (r: Result<u128, uuid::Error>)
    ensures
        match r {
            Ok(v) => uuid_value(input@) == Some(v),
            Err(_) => uuid_value(input@) is None,
        },
{
    match uuid::Uuid::parse_str(input) {
        Ok(u) => Ok(u.as_u128()),
        Err(e) => Err(e),
    }
}

/// `uuid::Uuid::from_slice`: accepts exactly 16 bytes, the most significant first.
#[verifier::external_body]
pub(crate) fn uuid_from_slice(bytes: &[u8]) -> (r: Result<u128, uuid::Error>)
    ensures
        match r {
            Ok(v) => bytes@.len() == 16 && v == big_endian(bytes@),
            Err(_) => bytes@.len() != 16,
        },
{
    match uuid::Uuid::from_slice(bytes) {
        Ok(u) => Ok(u.as_u128()),
        Err(e) => Err(e),
    }
}

/// The text with which the `uuid` crate describes one of its errors.
#[verifier::external_body]
pub(crate) fn uuid_error_text(e: &uuid::Error) -> (s: String) {
    e.to_string()
}

/// `uuid::Uuid::simple`: the 32 lower-case hexadecimal digits of the value, without hyphens.
#[verifier::external_body]
pub(crate) fn uuid_simple(value: u128) -> (s: String)
    ensures
        s@ == hex32(value),
{
    uuid::Uuid::from_u128(value).simple().to_string()
}

/// `uuid::Uuid::now_v7`: a fresh identifier made of the current time and random bits. Whatever
/// they are, the version it carries is 7.
#[verifier::external_body]
pub(crate) fn uuid_now_v7() -> (v: u128)
    ensures
        uuid_version(v) == 7,
{
    uuid::Uuid::now_v7().as_u128()
}

/// A version-7 identifier is never the nil UUID.
pub proof fn lemma_version_7_not_nil(v: u128)
    requires
        uuid_version(v) == 7,
    ensures
        v != 0,
{
    assert((v >> 76) & 0xf == 7 ==> v != 0) by (bit_vector);
}

/// A fresh version-7 identifier.
pub fn new_id() -> (v: u128)
    ensures
        uuid_version(v) == 7,
        v != 0,
{
    let v = uuid_now_v7();
    proof {
        lemma_version_7_not_nil(v);
    }
    v
}

/// `chrono::Utc::now`, written by `to_rfc3339_opts` to the second with the suffix `Z`: the
/// time at which the call is made, of which nothing is known beforehand.
#[verifier::external_body]
pub(crate) fn utc_now_text() -> (s: String) {
    chrono::Utc::now().to_rfc3339_opts(chrono::SecondsFormat::Secs, true)
}

/// `hostname::get`: the name of this machine, where the system gives one. Bytes that are
/// no text are replaced as `to_string_lossy` does.
#[verifier::external_body]
pub(crate) fn host_name() -> (name: Option<String>) {
    match hostname::get() {
        Ok(name) => Some(name.to_string_lossy().to_string()),
        Err(_) => None,
    }
}

} // verus!
