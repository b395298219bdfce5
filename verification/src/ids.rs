//! Random identifiers (UUID version 4 in text form).
use vstd::prelude::*;

verus! {

broadcast use vstd::string::group_string_axioms;

pub open spec fn is_lower_hex(c: char) -> bool {
    ('0' <= c && c <= '9') || ('a' <= c && c <= 'f')
}

/// The hyphenated text form of a UUID: 36 characters, hyphens at positions
/// 8, 13, 18 and 23, lowercase hexadecimal digits elsewhere.
pub open spec fn is_hyphenated_uuid(s: Seq<char>) -> bool {
    &&& s.len() == 36
    &&& forall|i: int|
        0 <= i < 36 ==> if i == 8 || i == 13 || i == 18 || i == 23 {
            s[i] == '-'
        } else {
            is_lower_hex(#[trigger] s[i])
        }
}

/// The simple text form of a UUID: 32 lowercase hexadecimal digits.
pub open spec fn is_simple_uuid(s: Seq<char>) -> bool {
    &&& s.len() == 32
    &&& forall|i: int| 0 <= i < 32 ==> is_lower_hex(#[trigger] s[i])
}

/// `uuid::Uuid::new_v4().to_string()`: a fresh random UUID, hyphenated.
/// Only its shape is stated; its value is random.
#[verifier::external_body]
pub(crate) fn new_uuid_string() -> (r: String)
    ensures
        is_hyphenated_uuid(r@),
{
    uuid::Uuid::new_v4().to_string()
}

/// `uuid::Uuid::new_v4().simple().to_string()`: a fresh random UUID without
/// hyphens. Only its shape is stated; its value is random.
#[verifier::external_body]
pub(crate) fn new_uuid_simple() -> (r: String)
    ensures
        is_simple_uuid(r@),
{
    uuid::Uuid::new_v4().simple().to_string()
}

} // verus!
