//! Values shared by every part of the library.
use vstd::prelude::*;

verus! {

/// An error as the user interface receives it: a stable code and a message.
#[derive(Debug, Clone, PartialEq, Eq)]
pub struct PublicError {
    pub code: String,
    pub message: String,
}

pub fn public_error(code: &str, message: &str) -> (e: PublicError)
    ensures
        e.code@ == code@,
        e.message@ == message@,
{
    PublicError { code: crate::text::owned(code), message: crate::text::owned(message) }
}

/// A lowercase hexadecimal digit.
pub open spec fn is_lower_hex(c: char) -> bool {
    ('0' <= c && c <= '9') || ('a' <= c && c <= 'f')
}

/// The hyphenated text form of a random (version 4, RFC 4122 variant)
/// UUID: 36 characters, hyphens at 8, 13, 18 and 23, lowercase hexadecimal
/// digits elsewhere, the version digit `4` at 14 and a variant digit of
/// `8`, `9`, `a` or `b` at 19.
pub open spec fn is_v4_uuid_text(s: Seq<char>) -> bool {
    &&& s.len() == 36
    &&& forall|i: int|
        0 <= i < 36 ==> if i == 8 || i == 13 || i == 18 || i == 23 {
            s[i] == '-'
        } else {
            is_lower_hex(#[trigger] s[i])
        }
    &&& s[14] == '4'
    &&& (s[19] == '8' || s[19] == '9' || s[19] == 'a' || s[19] == 'b')
}

/// A fresh random identifier, from `uuid::Uuid::new_v4` in its hyphenated
/// text form. Claimed: the form of every such text (`is_v4_uuid_text`):
/// `new_v4` sets the version and variant bits and `Display` writes the
/// lowercase hyphenated form. The other digits are random and unstated.
#[verifier::external_body]
pub fn new_uuid() -> (r: String)
    ensures
        is_v4_uuid_text(r@),
{
    uuid::Uuid::new_v4().to_string()
}

/// The id a request runs under: the one given, trimmed, or a fresh one
/// where it is blank.
pub fn request_id_or_new(requested: &str) -> (r: String)
    ensures
        crate::text::trim(requested@).len() > 0 ==> r@ == crate::text::trim(requested@),
        crate::text::trim(requested@).len() == 0 ==> is_v4_uuid_text(r@),
{
    let t = crate::text::trim_str(requested);
    if t.len() > 0 {
        crate::text::string_of(&t)
    } else {
        new_uuid()
    }
}

} // verus!
