//! Ids of jobs and messages: a prefix and a random UUID.

use vstd::prelude::*;

use crate::text::concat;

verus! {

/// A digit of a number in hexadecimal, in lower case.
pub open spec fn lower_hex(c: char) -> bool {
    '0' <= c <= '9' || 'a' <= c <= 'f'
}

/// The text of a random (version 4) UUID: 32 hexadecimal digits in five groups
/// with hyphens between them, of which one tells the version and one the variant.
pub open spec fn random_uuid_text(s: Seq<char>) -> bool {
    &&& s.len() == 36
    &&& forall|i: int|
        0 <= i < 36 ==> if i == 8 || i == 13 || i == 18 || i == 23 {
            #[trigger] s[i] == '-'
        } else {
            lower_hex(s[i])
        }
    &&& s[14] == '4'
    &&& s[19] == '8' || s[19] == '9' || s[19] == 'a' || s[19] == 'b'
}

/// An id under `prefix`: the prefix, then the text of a random UUID.
pub open spec fn id_under(prefix: Seq<char>, id: Seq<char>) -> bool {
    &&& prefix.is_prefix_of(id)
    &&& random_uuid_text(id.skip(prefix.len() as int))
}

/// `uuid::Uuid::new_v4`, printed: every outcome has the form of a random UUID.
/// Which UUID it is rests on the operating system's random numbers; without them
/// the call panics.
#[verifier::external_body]
fn random_uuid() -> (text: String)
    ensures
        random_uuid_text(text@),
{
    uuid::Uuid::new_v4().to_string()
}

/// A new id under `prefix`.
pub fn new_id(prefix: &str) -> (id: String)
    ensures
        id_under(prefix@, id@),
{
    let uuid = random_uuid();
    let id = concat(prefix, uuid.as_str());
    assert(id@.skip(prefix@.len() as int) == uuid@);
    id
}

} // verus!
