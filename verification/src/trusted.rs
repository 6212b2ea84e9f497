//! The library's calls into the clock, the random number generator and the
//! digest function. What is stated of them here is believed, not proved.

use vstd::prelude::*;

verus! {

/// The MD5 digest of the UTF-8 bytes of `text`, as 32 lower-case hexadecimal
/// digits.
pub uninterp spec fn md5_hex(text: Seq<char>) -> Seq<char>;

/// The number of characters of a UUID in its hyphenated form.
pub const UUID_TEXT_LENGTH: usize = 36;

/// Calls `md5::compute` on the bytes of `text` and formats the digest with
/// `{:x}`. The digest is a function of the text alone, which the contract
/// names `md5_hex`.
#[verifier::external_body]
pub(crate) fn md5_of_text(text: &str) -> (r: String)
    ensures
        r@ == md5_hex(text@),
{
    format!("{:x}", md5::compute(text.as_bytes()))
}

/// Calls `uuid::Uuid::new_v4` and writes the result with `to_string`, which
/// gives the hyphenated form: 36 characters. Which UUID comes back is left
/// open.
#[verifier::external_body]
pub(crate) fn random_uuid_text() -> (r: String)
    ensures
        r@.len() == UUID_TEXT_LENGTH,
{
    uuid::Uuid::new_v4().to_string()
}

/// Calls `chrono::Utc::now` and converts the result with `timestamp_millis`:
/// the milliseconds since the Unix epoch. Nothing is stated of the value.
#[verifier::external_body]
pub(crate) fn current_time_millis() -> (r: i64) {
    chrono::Utc::now().timestamp_millis()
}

} // verus!
