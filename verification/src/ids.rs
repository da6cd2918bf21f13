//! Fresh identifiers for actions and conversations.
use vstd::prelude::*;

verus! {

/// A character that can appear in a generated identifier: a lower-case
/// hexadecimal digit or a hyphen.
pub open spec fn is_id_char(c: char) -> bool {
    ('0' <= c && c <= '9') || ('a' <= c && c <= 'f') || c == '-'
}

/// Relies on `uuid::Uuid::new_v4` and the `Display` implementation of
/// `Uuid`: a random version-4 UUID formatted in the hyphenated form, which
/// is exactly 36 characters, each a lower-case hexadecimal digit or a
/// hyphen. The value is random; nothing relates one call to the next.
#[verifier::external_body]
pub fn fresh_id() -> (r: String)
    ensures
        r@.len() == 36,
        forall|i: int| 0 <= i < 36 ==> is_id_char(r@[i]),
{
    uuid::Uuid::new_v4().to_string()
}

/// An identifier character is never whitespace.
pub proof fn lemma_id_chars_not_ws(c: char)
    ensures
        is_id_char(c) ==> !crate::text::is_ws(c),
{
}

} // verus!
