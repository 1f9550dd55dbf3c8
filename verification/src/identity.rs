//! The profile of a user as it is handed out.

use crate::avatar::{avatar_address, avatar_url};
use crate::decimal::{decimal, format_u64};
use crate::getch::IUser;
use crate::presence::Status;
use vstd::prelude::*;

verus! {

/// The profile of a user.
#[derive(Clone, Debug, PartialEq, Eq)]
pub struct Identity {
    pub username: String,
    /// The discriminator in decimal, without leading zeros.
    pub disc: String,
    /// The user id in decimal.
    pub id: String,
    /// The address of the user's avatar; empty where the user has set none.
    pub avatar: String,
    pub status: Status,
    pub bot: bool,
}

impl IUser {
    /// The avatar address shown on the profile.
    pub open spec fn avatar_text(&self) -> Seq<char> {
        match self.user.avatar {
            Some(hash) => avatar_address(self.user.id, hash@),
            None => Seq::empty(),
        }
    }

    /// The profile of the user.
    pub fn identity(&self) -> (r: Identity)
        ensures
            r.username@ == self.user.name@,
            r.disc@ == decimal(self.user.discriminator as nat),
            r.id@ == decimal(self.user.id as nat),
            r.avatar@ == self.avatar_text(),
            r.status == self.status,
            r.bot == self.user.bot,
    {
        let avatar = match avatar_url(self.user.id, &self.user.avatar) {
            Some(url) => url,
            None => String::new(),
        };
        Identity {
            username: self.user.name.clone(),
            disc: format_u64(self.user.discriminator as u64),
            id: format_u64(self.user.id),
            avatar,
            status: self.status,
            bot: self.user.bot,
        }
    }
}

} // verus!
