//! Presence as the realtime sessions report it, and as profiles show it.

use vstd::prelude::*;

verus! {

/// The presence a realtime session holds for a user in one guild.
#[derive(Clone, Copy, Debug, PartialEq, Eq, Structural)]
pub enum OnlineStatus {
    DoNotDisturb,
    Idle,
    Invisible,
    Offline,
    Online,
    /// A presence this library has no name for.
    Unrecognised,
}

/// The presence shown on a resolved profile.
#[derive(Clone, Copy, Debug, PartialEq, Eq, Structural)]
pub enum Status {
    Online,
    Idle,
    DoNotDisturb,
    Offline,
    Unknown,
}

impl OnlineStatus {
    /// The profile status that stands for this presence.
    ///
    /// An invisible user is shown as offline; a presence without a name is
    /// shown as unknown.
    pub open spec fn shown(self) -> Status {
        match self {
            OnlineStatus::Online => Status::Online,
            OnlineStatus::Idle => Status::Idle,
            OnlineStatus::DoNotDisturb => Status::DoNotDisturb,
            OnlineStatus::Invisible => Status::Offline,
            OnlineStatus::Offline => Status::Offline,
            OnlineStatus::Unrecognised => Status::Unknown,
        }
    }

    /// Maps a session presence to the status shown on a profile.
    pub fn status(self) -> (s: Status)
        ensures
            s == self.shown(),
    {
        match self {
            OnlineStatus::Online => Status::Online,
            OnlineStatus::Idle => Status::Idle,
            OnlineStatus::DoNotDisturb => Status::DoNotDisturb,
            OnlineStatus::Invisible => Status::Offline,
            OnlineStatus::Offline => Status::Offline,
            OnlineStatus::Unrecognised => Status::Unknown,
        }
    }
}

} // verus!
