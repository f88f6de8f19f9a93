//! Identifiers of stored files: short random names that the service makes up
//! itself, so that no text from a client ever becomes the stem of a file name.

use rand::Rng;
use vstd::prelude::*;

verus! {

/// How many characters an identifier has.
pub const ID_LENGTH: usize = 4;

/// An ASCII letter or digit.
pub open spec fn is_alphanumeric(c: char) -> bool {
    ('0' <= c && c <= '9') || ('A' <= c && c <= 'Z') || ('a' <= c && c <= 'z')
}

/// A well-formed identifier: exactly `ID_LENGTH` ASCII letters and digits.
pub open spec fn is_file_id(s: Seq<char>) -> bool {
    &&& s.len() == ID_LENGTH
    &&& forall|i: int| 0 <= i < s.len() ==> is_alphanumeric(#[trigger] s[i])
}

/// Draws one character with `rand::Rng::sample` on the thread's generator and
/// the `rand::distributions::Alphanumeric` distribution. That distribution
/// only ever yields the bytes of `A-Z`, `a-z` and `0-9`; which one comes out
/// is up to chance, so nothing more is claimed.
#[verifier::external_body]
fn sample_alphanumeric() -> (c: char)
    ensures
        is_alphanumeric(c),
{
    char::from(rand::thread_rng().sample(rand::distributions::Alphanumeric))
}

/// Whether `c` is an ASCII letter or digit.
pub fn char_is_alphanumeric(c: char) -> (yes: bool)
    ensures
        yes == is_alphanumeric(c),
{
    ('0' <= c && c <= '9') || ('A' <= c && c <= 'Z') || ('a' <= c && c <= 'z')
}

/// Makes up a fresh identifier. Nothing is remembered and nothing is checked
/// against the files that exist: two calls may return the same identifier.
pub fn create_file_id() -> (id: String)
    ensures
        is_file_id(id@),
{
    let mut id = String::new();
    let mut n: usize = 0;
    while n < ID_LENGTH
        invariant
            n <= ID_LENGTH,
            id@.len() == n,
            forall|i: int| 0 <= i < id@.len() ==> is_alphanumeric(#[trigger] id@[i]),
        decreases ID_LENGTH - n,
    {
        let c = sample_alphanumeric();
        id.push(c);
        n += 1;
    }
    id
}

/// Whether `s` is a well-formed identifier.
pub fn is_valid_file_id(s: &str) -> (valid: bool)
    ensures
        valid == is_file_id(s@),
{
    let chars = crate::text::chars_of(s);
    if chars.len() != ID_LENGTH {
        return false;
    }
    let mut i: usize = 0;
    while i < chars.len()
        invariant
            chars@ == s@,
            i <= chars@.len(),
            forall|k: int| 0 <= k < i ==> is_alphanumeric(#[trigger] chars@[k]),
        decreases chars@.len() - i,
    {
        if !char_is_alphanumeric(chars[i]) {
            return false;
        }
        i += 1;
    }
    true
}

} // verus!
