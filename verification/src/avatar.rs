//! Avatar addresses on the content delivery network.

use crate::decimal::decimal;
use vstd::prelude::*;

verus! {

/// Whether an avatar hash names an animated avatar.
pub open spec fn animated(hash: Seq<char>) -> bool {
    hash.len() >= 2 && hash[0] == 'a' && hash[1] == '_'
}

/// The address of the avatar with the hash `hash` of the user `id`: a GIF
/// where the avatar is animated, a WebP image where not.
pub open spec fn avatar_address(id: u64, hash: Seq<char>) -> Seq<char> {
    "https://cdn.discordapp.com/avatars/"@ + decimal(id as nat) + "/"@ + hash + "."@ + (if animated(
        hash,
    ) {
        "gif"@
    } else {
        "webp"@
    }) + "?size=1024"@
}

/// Calls `serenity::model::user::User::avatar_url` for a user with the given
/// id and avatar hash.
///
/// Trusted: a user without an avatar hash has no address, and the address
/// of any other user is [`avatar_address`] of the id and the hash.
#[verifier::external_body]
pub(crate) fn avatar_url(id: u64, avatar: &Option<String>) -> (url: Option<String>)
    ensures
        match url {
            Some(text) => avatar matches Some(hash) && text@ == avatar_address(id, hash@),
            None => avatar is None,
        },
{
    let mut user = serenity::model::user::User::default();
    user.id = serenity::model::id::UserId(id);
    user.avatar = avatar.clone();
    user.avatar_url()
}

} // verus!
