//! The two outside sources of chance: uniform integer draws and random
//! identifiers. Nothing in this file is proved; the contracts say what the
//! rest of the crate takes on trust.

use vstd::prelude::*;

verus! {

/// A lower-case hexadecimal digit.
pub open spec fn is_lower_hex(c: char) -> bool {
    ('0' <= c && c <= '9') || ('a' <= c && c <= 'f')
}

/// The textual shape of a random (version 4) UUID: 36 characters, hyphens
/// after the 8th, 12th, 16th and 20th digit, lower-case hexadecimal digits
/// elsewhere, the version digit `4` and a variant digit of `8`, `9`, `a`
/// or `b`.
pub open spec fn is_uuid_text(text: Seq<char>) -> bool {
    &&& text.len() == 36
    &&& forall|i: int|
        0 <= i < 36 ==> if i == 8 || i == 13 || i == 18 || i == 23 {
            #[trigger] text[i] == '-'
        } else {
            is_lower_hex(text[i])
        }
    &&& text[14] == '4'
    &&& (text[19] == '8' || text[19] == '9' || text[19] == 'a' || text[19] == 'b')
}

/// Calls `rand::random_range(low..high)`, which draws from the thread-local
/// generator. Taken on trust: the value lies in the half-open range. The
/// outside function panics on an empty range, which `requires` excludes;
/// it also panics if the operating system has no randomness to seed the
/// generator with, which no argument decides. Nothing is claimed about how
/// the values are distributed.
#[verifier::external_body]
pub(crate) fn random_in(low: i32, high: i32) -> (value: i32)
    requires
        low < high,
    ensures
        low <= value < high,
{
    rand::random_range(low..high)
}

/// Calls `uuid::Uuid::new_v4()` and renders the result with its `Debug`
/// impl, which writes the hyphenated lower-case form. Taken on trust: the
/// text has the shape of [`is_uuid_text`]. That two calls give different
/// texts is likely beyond doubt but not promised, so callers that need it
/// compare. The outside function panics if the operating system has no
/// randomness to give.
#[verifier::external_body]
pub(crate) fn fresh_identifier() -> (id: String)
    ensures
        is_uuid_text(id@),
{
    format!("{:?}", uuid::Uuid::new_v4())
}

} // verus!
