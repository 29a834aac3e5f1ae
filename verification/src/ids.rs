//! Identifier handling: generation of fresh ids and parsing of ids taken
//! from request paths, both through the `uuid` crate.

use vstd::prelude::*;

verus! {

/// Canonical hyphenated text of the UUID that `s` parses to, or `None`
/// when `s` is not a UUID in any accepted textual form. Names the result
/// of `uuid::Uuid::parse_str` composed with the hyphenated rendering,
/// which depends on `s` alone.
pub uninterp spec fn uuid_parse(s: Seq<char>) -> Option<Seq<char>>;

/// The text that `uuid::Error`'s `Display` gives for the failure reported
/// on input `s`; a function of `s` alone.
pub uninterp spec fn uuid_parse_err_text(s: Seq<char>) -> Seq<char>;

/// Relies on `uuid::Uuid::new_v4` and the `Display` of `uuid::Uuid`: a
/// fresh random UUID rendered hyphenated, which is exactly 36 characters,
/// and which `uuid::Uuid::parse_str` accepts and renders back unchanged.
/// Nothing else can be promised of a random value.
#[verifier::external_body]
pub fn new_uuid() -> (r: String)
    ensures
        r@.len() == 36,
        uuid_parse(r@) == Some(r@),
{
    uuid::Uuid::new_v4().to_string()
}

/// Relies on `uuid::Uuid::parse_str`, which accepts or rejects `s` as a
/// function of its characters alone and accepts its own canonical
/// rendering back unchanged, and on `uuid::Error`'s `Display` for the
/// text of a rejection.
#[verifier::external_body]
pub fn parse_uuid(s: &str) -> (r: Result<String, String>)
    ensures
        match r {
            Ok(u) => uuid_parse(s@) == Some(u@) && u@.len() == 36 && uuid_parse(u@) == Some(u@),
            Err(e) => uuid_parse(s@) is None && e@ == uuid_parse_err_text(s@),
        },
{
    match uuid::Uuid::parse_str(s) {
        Ok(u) => Ok(u.to_string()),
        Err(e) => Err(format!("{}", e)),
    }
}

} // verus!
