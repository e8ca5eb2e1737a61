//! Identifier and hashing utilities: the library's narrow interfaces to the
//! hash function, the unique-identifier generator and the human-readable
//! identifier encoder.

use crate::error::TradeError;
use vstd::prelude::*;

verus! {

/// The digest string the sha256 crate computes for a byte string.
pub uninterp spec fn digest_of(bytes: Seq<u8>) -> Seq<char>;

/// Relies on sha256::digest: the SHA-256 digest of the input bytes as 64
/// lowercase hex characters, a pure function of the bytes alone.
#[verifier::external_body]
pub(crate) fn sha256_digest(bytes: &Vec<u8>) -> (r: String)
    ensures
        r@ == digest_of(bytes@),
        r@.len() == 64,
{
    sha256::digest(bytes.as_slice())
}

/// Relies on uuid7::uuid7: a fresh time-ordered unique identifier, 16 bytes
/// long. Nothing else is promised of the value, which depends on the clock
/// and on randomness.
#[verifier::external_body]
pub(crate) fn new_time_ordered_id() -> (r: Vec<u8>)
    ensures
        r@.len() == 16,
{
    uuid7::uuid7().as_bytes().to_vec()
}

/// A human-readable part that bech32 accepts: nonempty, at most 83
/// characters, each with an ASCII code from 33 to 126, and not mixing
/// lowercase with uppercase letters.
pub open spec fn hrp_valid(s: Seq<char>) -> bool {
    &&& 0 < s.len() <= 83
    &&& forall|i: int| 0 <= i < s.len() ==> 33 <= (#[trigger] s[i]) as int <= 126
    &&& !((exists|i: int| 0 <= i < s.len() && 97 <= (#[trigger] s[i]) as int <= 122) && (exists|
        j: int,
    | 0 <= j < s.len() && 65 <= (#[trigger] s[j]) as int <= 90))
}

/// True of prefixes without uppercase ASCII letters. bech32 lowercases the
/// prefix in its output, so such prefixes come back unchanged.
pub open spec fn no_uppercase(s: Seq<char>) -> bool {
    forall|i: int| 0 <= i < s.len() ==> !(65 <= (#[trigger] s[i]) as int <= 90)
}

/// Relies on bech32::Hrp::parse and bech32::encode with the Bech32m
/// checksum: tags 16 bytes of data with a human-readable prefix and a
/// checksum. Parsing accepts exactly the prefixes `hrp_valid` describes, and
/// an encoding of a valid prefix with 16 bytes of data always fits within
/// bech32's code length of 1023. The output is the lowercased prefix, the
/// separator `'1'`, then 26 data and 6 checksum characters.
#[verifier::external_body]
fn bech32m_encode_id(hrp: &str, data: &Vec<u8>) -> (r: Option<String>)
    requires
        data@.len() == 16,
    ensures
        r is Some <==> hrp_valid(hrp@),
        r matches Some(s) ==> {
            &&& s@.len() == hrp@.len() + 33
            &&& s@[hrp@.len() as int] == '1'
            &&& (no_uppercase(hrp@) ==> s@.subrange(0, hrp@.len() as int) == hrp@)
        },
{
    let parsed = match bech32::Hrp::parse(hrp) {
        Ok(h) => h,
        Err(_) => {
            return None;
        },
    };
    bech32::encode::<bech32::Bech32m>(parsed, data.as_slice()).ok()
}

/// Relies on bech32::Hrp::parse and bech32::encode with the Bech32
/// checksum: as [`bech32m_encode_id`], with the plain Bech32 checksum.
#[verifier::external_body]
pub(crate) fn bech32_encode_id(hrp: &str, data: &Vec<u8>) -> (r: Option<String>)
    requires
        data@.len() == 16,
    ensures
        r is Some <==> hrp_valid(hrp@),
        r matches Some(s) ==> {
            &&& s@.len() == hrp@.len() + 33
            &&& s@[hrp@.len() as int] == '1'
            &&& (no_uppercase(hrp@) ==> s@.subrange(0, hrp@.len() as int) == hrp@)
        },
{
    let parsed = match bech32::Hrp::parse(hrp) {
        Ok(h) => h,
        Err(_) => {
            return None;
        },
    };
    bech32::encode::<bech32::Bech32>(parsed, data.as_slice()).ok()
}

/// A fresh time-ordered identifier, tagged with the given human-readable
/// prefix and a checksum. Succeeds exactly when the prefix is one bech32
/// accepts; the result is the lowercased prefix, the separator `'1'`, then
/// 32 data and checksum characters.
pub fn new_uuid_to_bech32(hrp: &str) -> (r: Result<String, TradeError>)
    ensures
        r is Ok <==> hrp_valid(hrp@),
        r matches Ok(s) ==> {
            &&& s@.len() == hrp@.len() + 33
            &&& s@[hrp@.len() as int] == '1'
            &&& (no_uppercase(hrp@) ==> s@.subrange(0, hrp@.len() as int) == hrp@)
        },
        r matches Err(e) ==> (e matches TradeError::InvalidEntity(o) && o matches Some(s) && s@
            == hrp@),
{
    let id = new_time_ordered_id();
    match bech32m_encode_id(hrp, &id) {
        Some(s) => Ok(s),
        None => Err(TradeError::InvalidEntity(Some(hrp.to_owned()))),
    }
}

} // verus!
