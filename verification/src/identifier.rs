//! Fresh opaque identifiers for sessions, targets and observations.
use vstd::prelude::*;

verus! {

/// A digit of a lower-case hexadecimal numeral.
pub open spec fn hex_digit(c: char) -> bool {
    ('0' <= c && c <= '9') || ('a' <= c && c <= 'f')
}

/// The form of a random identifier: thirty-two lower-case hexadecimal digits in groups
/// of 8, 4, 4, 4 and 12 with hyphens between, of version 4 and the standard variant.
pub open spec fn identifier(s: Seq<char>) -> bool {
    &&& s.len() == 36
    &&& forall|i: int|
        0 <= i < 36 ==> if i == 8 || i == 13 || i == 18 || i == 23 {
            #[trigger] s[i] == '-'
        } else {
            hex_digit(s[i])
        }
    &&& s[14] == '4'
    &&& (s[19] == '8' || s[19] == '9' || s[19] == 'a' || s[19] == 'b')
}

/// `uuid::Uuid::new_v4`, written as text: a random identifier. Which one is left to
/// chance; only its form is promised, and not that it differs from earlier ones.
#[verifier::external_body]
pub(crate) fn fresh_identifier() -> (r: String)
    ensures
        identifier(r@),
{
    uuid::Uuid::new_v4().to_string()
}

/// Draws an identifier.
pub fn draw() -> (r: String)
    ensures
        identifier(r@),
{
    fresh_identifier()
}

} // verus!
