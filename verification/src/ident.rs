//! Identifiers that the engine makes up.

use vstd::prelude::*;

verus! {

/// Whether `c` is a digit or one of the letters `a` to `f`.
pub open spec fn is_hex_digit(c: char) -> bool {
    ('0' <= c <= '9') || ('a' <= c <= 'f')
}

/// Whether `s` has the form of an identifier: 36 characters, hyphens at the
/// places 8, 13, 18 and 23, and hexadecimal digits in lower case elsewhere.
pub open spec fn is_identifier(s: Seq<char>) -> bool {
    &&& s.len() == 36
    &&& forall|i: int|
        0 <= i < 36 ==> if i == 8 || i == 13 || i == 18 || i == 23 {
            #[trigger] s[i] == '-'
        } else {
            is_hex_digit(s[i])
        }
}

/// A random identifier: what `uuid::Uuid::new_v4` makes, written by its
/// `Display`, which is the hyphenated form in lower case. Which identifier
/// it is depends on chance; its form does not.
#[verifier::external_body]
pub(crate) fn random_identifier() -> (out: String)
    ensures
        is_identifier(out@),
{
    uuid::Uuid::new_v4().to_string()
}

/// A new identifier for a container, a network or a build.
pub fn new_id() -> (out: String)
    ensures
        is_identifier(out@),
{
    random_identifier()
}

} // verus!
