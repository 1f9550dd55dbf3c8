//! Invites to a guild: what is asked of the guild for one invite, and the
//! search for a channel of the guild that grants one.

use crate::database::Database;
use crate::decimal::{decimal, format_u64};
use vstd::prelude::*;
use vstd::string::*;

verus! {

/// What is asked of a channel for an invite.
#[derive(Clone, Debug, PartialEq, Eq)]
pub struct InviteRequest {
    /// The channel the invite leads to.
    pub channel: u64,
    /// The seconds for which the invite is valid.
    pub max_age: u64,
    /// The number of times the invite can be used.
    pub max_uses: u64,
    /// Whether the invite grants temporary membership only.
    pub temporary: bool,
    /// Whether a new invite is made where a similar one exists.
    pub unique: bool,
    /// The reason written to the guild's audit log.
    pub reason: String,
}

/// The reason given for an invite made for the user `uid`.
pub open spec fn invite_reason(uid: u64) -> Seq<char> {
    "Invite created for user "@ + decimal(uid as nat)
}

impl Database {
    /// What to ask of the channel `cid` for an invite for the user `uid`:
    /// one that is new, permanent in membership, valid for a quarter of an
    /// hour and for one use.
    pub fn guild_invite(&self, cid: u64, uid: u64) -> (r: InviteRequest)
        ensures
            r.channel == cid,
            r.max_age == 900,
            r.max_uses == 1,
            !r.temporary,
            r.unique,
            r.reason@ == invite_reason(uid),
    {
        let mut reason = String::from_str("Invite created for user ");
        let user = format_u64(uid);
        reason.append(user.as_str());
        InviteRequest {
            channel: cid,
            max_age: 60 * 15,
            max_uses: 1,
            temporary: false,
            unique: true,
            reason,
        }
    }
}

/// A request for an invite to a guild.
#[derive(Clone, Copy, Debug, PartialEq, Eq, Structural)]
pub struct GuildInviteQuery {
    /// The channel to try first; zero for none.
    pub cid: u64,
    /// The user the invite is for.
    pub uid: u64,
    /// The guild.
    pub gid: u64,
}

/// What the search for an invite waits for.
#[derive(Clone, Debug, PartialEq, Eq)]
pub enum InviteSearch {
    /// Nothing was asked yet.
    Start,
    /// An invite was asked of the channel that the query names.
    Direct,
    /// The servers session's cache was asked for the channels of the guild.
    Cached,
    /// The channels of the guild were fetched.
    Fetched,
    /// An invite was asked of the channel `cid`, which stands just before
    /// position `next` of `channels`.
    Channel { channels: Vec<u64>, next: usize, cid: u64 },
    /// The search has ended.
    Finished,
}

/// What the caller is to do next.
#[derive(Clone, Debug, PartialEq, Eq)]
pub enum InviteAsk {
    /// Ask this channel for an invite for this user.
    Create { cid: u64, uid: u64 },
    /// Ask the servers session's cache for the channels of the guild.
    CachedChannels { gid: u64 },
    /// Fetch the channels of the guild.
    FetchChannels { gid: u64 },
    /// The search ends with an invite to this channel.
    Found { url: String, cid: u64 },
    /// The search ends without an invite.
    NotFound,
    /// The search ends because the guild's channels cannot be had.
    BadRequest,
}

/// What came back for the question before.
#[derive(Clone, Debug, PartialEq, Eq)]
pub enum InviteAnswer {
    /// Nothing: the channel grants no invite, the cache does not hold the
    /// guild, or the fetch failed.
    Nothing,
    /// The address of the invite that the channel granted.
    Url(String),
    /// The channels of the guild, in the order in which to try them.
    Channels(Vec<u64>),
}

/// Tries the channel at `next`, or ends the search where no channel is
/// left.
pub open spec fn try_from(uid: u64, channels: Vec<u64>, next: usize) -> (InviteSearch, InviteAsk) {
    if next < channels.len() {
        (
            InviteSearch::Channel {
                channels,
                next: (next + 1) as usize,
                cid: channels@[next as int],
            },
            InviteAsk::Create { cid: channels@[next as int], uid },
        )
    } else {
        (InviteSearch::Finished, InviteAsk::NotFound)
    }
}

/// Turns to the channels of the guild, starting with the cache.
pub open spec fn turn_to_guild(query: GuildInviteQuery) -> (InviteSearch, InviteAsk) {
    (InviteSearch::Cached, InviteAsk::CachedChannels { gid: query.gid })
}

/// The next state and the next question, from a state and the answer to the
/// question before.
///
/// The channel that the query names is tried first, unless it is zero. Then
/// the channels of the guild are tried in turn, as the cache holds them or,
/// where it does not hold the guild, as they are fetched. The first invite
/// granted ends the search. An answer of another kind than the question asks
/// for counts as [`InviteAnswer::Nothing`]; the answer handed in at the
/// start is not looked at.
pub open spec fn step(query: GuildInviteQuery, state: InviteSearch, answer: InviteAnswer) -> (
    InviteSearch,
    InviteAsk,
) {
    match state {
        InviteSearch::Start => if query.cid != 0 {
            (InviteSearch::Direct, InviteAsk::Create { cid: query.cid, uid: query.uid })
        } else {
            turn_to_guild(query)
        },
        InviteSearch::Direct => match answer {
            InviteAnswer::Url(url) => (
                InviteSearch::Finished,
                InviteAsk::Found { url, cid: query.cid },
            ),
            _ => turn_to_guild(query),
        },
        InviteSearch::Cached => match answer {
            InviteAnswer::Channels(channels) => try_from(query.uid, channels, 0),
            _ => (InviteSearch::Fetched, InviteAsk::FetchChannels { gid: query.gid }),
        },
        InviteSearch::Fetched => match answer {
            InviteAnswer::Channels(channels) => try_from(query.uid, channels, 0),
            _ => (InviteSearch::Finished, InviteAsk::BadRequest),
        },
        InviteSearch::Channel { channels, next, cid } => match answer {
            InviteAnswer::Url(url) => (InviteSearch::Finished, InviteAsk::Found { url, cid }),
            _ => try_from(query.uid, channels, next),
        },
        InviteSearch::Finished => (InviteSearch::Finished, InviteAsk::NotFound),
    }
}

/// Tries the channel at `next`, or ends the search where no channel is left.
fn try_channels(uid: u64, channels: Vec<u64>, next: usize) -> (r: (InviteSearch, InviteAsk))
    ensures
        r == try_from(uid, channels, next),
{
    if next < channels.len() {
        let cid = channels[next];
        (InviteSearch::Channel { channels, next: next + 1, cid }, InviteAsk::Create { cid, uid })
    } else {
        (InviteSearch::Finished, InviteAsk::NotFound)
    }
}

/// Takes one step in the search for an invite to a guild.
///
/// Start with [`InviteSearch::Start`] and any answer. Ask what comes back,
/// hand the answer to the next call together with the state that came back,
/// and stop at [`InviteAsk::Found`], [`InviteAsk::NotFound`] or
/// [`InviteAsk::BadRequest`].
pub fn guild_invite(query: &GuildInviteQuery, state: InviteSearch, answer: InviteAnswer) -> (r: (
    InviteSearch,
    InviteAsk,
))
    ensures
        r == step(*query, state, answer),
{
    match state {
        InviteSearch::Start => if query.cid != 0 {
            (InviteSearch::Direct, InviteAsk::Create { cid: query.cid, uid: query.uid })
        } else {
            (InviteSearch::Cached, InviteAsk::CachedChannels { gid: query.gid })
        },
        InviteSearch::Direct => match answer {
            InviteAnswer::Url(url) => (
                InviteSearch::Finished,
                InviteAsk::Found { url, cid: query.cid },
            ),
            _ => (InviteSearch::Cached, InviteAsk::CachedChannels { gid: query.gid }),
        },
        InviteSearch::Cached => match answer {
            InviteAnswer::Channels(channels) => try_channels(query.uid, channels, 0),
            _ => (InviteSearch::Fetched, InviteAsk::FetchChannels { gid: query.gid }),
        },
        InviteSearch::Fetched => match answer {
            InviteAnswer::Channels(channels) => try_channels(query.uid, channels, 0),
            _ => (InviteSearch::Finished, InviteAsk::BadRequest),
        },
        InviteSearch::Channel { channels, next, cid } => match answer {
            InviteAnswer::Url(url) => (InviteSearch::Finished, InviteAsk::Found { url, cid }),
            _ => try_channels(query.uid, channels, next),
        },
        InviteSearch::Finished => (InviteSearch::Finished, InviteAsk::NotFound),
    }
}

} // verus!
