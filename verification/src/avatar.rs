//! Where avatars are kept: each under a file name of its own.

use vstd::prelude::*;
use vstd::string::*;

verus! {

/// A random version 4 UUID as text: `Uuid::new_v4` and its `Display`, which
/// writes 32 lower-case hex digits in five groups with four hyphens between
/// them. Only the length is claimed: the digits are random. `new_v4` panics
/// where the operating system cannot give random bytes.
#[verifier::external_body]
pub(crate) fn fresh_uuid() -> (token: String)
    ensures
        token@.len() == 36,
{
    uuid::Uuid::new_v4().to_string()
}

/// The file name of the avatar that goes by `token`.
pub open spec fn avatar_name(token: Seq<char>) -> Seq<char> {
    token + ".webp"@
}

/// The file name of the avatar that goes by `token`.
pub fn avatar_file_name(token: &str) -> (name: String)
    ensures
        name@ == avatar_name(token@),
{
    token.to_owned().concat(".webp")
}

/// A file name for a new avatar, unlike any given so far but by chance.
pub fn fresh_avatar_file_name() -> (name: String)
    ensures
        exists|token: Seq<char>| token.len() == 36 && name@ == #[trigger] avatar_name(token),
{
    let token = fresh_uuid();
    avatar_file_name(token.as_str())
}

} // verus!
