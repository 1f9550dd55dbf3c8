//! Looks a user up in tiers: the main session's cache, which may also know
//! the user's presence, then the servers session's cache, then a fetch.
//!
//! The lookup decides; its caller asks the sessions and hands back what they
//! answered.

use crate::database::Database;
use crate::presence::{OnlineStatus, Status};
use vstd::prelude::*;

verus! {

/// A user as a session or a fetch gives it.
#[derive(Clone, Debug, PartialEq, Eq)]
pub struct User {
    pub id: u64,
    pub name: String,
    pub discriminator: u16,
    /// The hash of the user's avatar, where the user has set one.
    pub avatar: Option<String>,
    pub bot: bool,
}

/// A user together with the presence that was found for the user.
#[derive(Clone, Debug, PartialEq, Eq)]
pub struct IUser {
    pub user: User,
    pub status: Status,
}

/// What the lookup waits for.
#[derive(Clone, Debug, PartialEq, Eq)]
pub enum Getch {
    /// Nothing was asked yet.
    Start,
    /// The main session's cache was asked for the user.
    Main,
    /// The main session holds the user and was asked for the guilds it
    /// tracks.
    Guilds(User),
    /// The main session was asked for the user's presence in the guild just
    /// before position `next`.
    Presence { user: User, guilds: Vec<u64>, next: usize },
    /// The servers session's cache was asked for the user.
    Servers,
    /// The user was fetched.
    Fetcher,
    /// The lookup has ended.
    Finished,
}

/// What the caller is to do next.
#[derive(Clone, Debug, PartialEq, Eq)]
pub enum Ask {
    /// Ask the main session's cache for the user.
    MainUser { user: u64 },
    /// Ask the main session for the guilds it tracks.
    MainGuilds,
    /// Ask the main session for the user's presence in a guild.
    MainPresence { guild: u64, user: u64 },
    /// Ask the servers session's cache for the user.
    ServersUser { user: u64 },
    /// Fetch the user.
    FetchUser { user: u64 },
    /// The lookup ends with this user.
    Found(IUser),
    /// The lookup ends without a user.
    NotFound,
}

/// What came back for the question before.
#[derive(Clone, Debug, PartialEq, Eq)]
pub enum Answer {
    /// Nothing: the cache holds no such user, the guild holds no presence of
    /// the user, or the fetch failed.
    Nothing,
    /// The user that a cache holds or that was fetched.
    User(User),
    /// The guilds that the main session tracks, in the order that the
    /// presence scan is to follow.
    Guilds(Vec<u64>),
    /// The presence of the user in the guild asked for.
    Presence(OnlineStatus),
}

/// The end of a lookup in the main session: the user with status unknown.
pub open spec fn without_presence(user: User) -> (Getch, Ask) {
    (Getch::Finished, Ask::Found(IUser { user, status: Status::Unknown }))
}

/// Turns to the guild at `next`, or ends the lookup where no guild is left.
pub open spec fn scan(id: u64, user: User, guilds: Vec<u64>, next: usize) -> (Getch, Ask) {
    if next < guilds.len() {
        (
            Getch::Presence { user, guilds, next: (next + 1) as usize },
            Ask::MainPresence { guild: guilds@[next as int], user: id },
        )
    } else {
        without_presence(user)
    }
}

/// The next state and the next question, from a state and the answer to the
/// question before.
///
/// An answer of another kind than the question asks for counts as
/// [`Answer::Nothing`]. The answer handed in at the start is not looked at.
pub open spec fn step(id: u64, state: Getch, answer: Answer) -> (Getch, Ask) {
    match state {
        Getch::Start => (Getch::Main, Ask::MainUser { user: id }),
        Getch::Main => match answer {
            Answer::User(user) => (Getch::Guilds(user), Ask::MainGuilds),
            _ => (Getch::Servers, Ask::ServersUser { user: id }),
        },
        Getch::Guilds(user) => match answer {
            Answer::Guilds(guilds) => scan(id, user, guilds, 0),
            _ => without_presence(user),
        },
        Getch::Presence { user, guilds, next } => match answer {
            Answer::Presence(presence) => (
                Getch::Finished,
                Ask::Found(IUser { user, status: presence.shown() }),
            ),
            _ => scan(id, user, guilds, next),
        },
        Getch::Servers => match answer {
            Answer::User(user) => without_presence(user),
            _ => (Getch::Fetcher, Ask::FetchUser { user: id }),
        },
        Getch::Fetcher => match answer {
            Answer::User(user) => without_presence(user),
            _ => (Getch::Finished, Ask::NotFound),
        },
        Getch::Finished => (Getch::Finished, Ask::NotFound),
    }
}

/// Turns to the guild at `next`, or ends the lookup where no guild is left.
fn scan_guilds(id: u64, user: User, guilds: Vec<u64>, next: usize) -> (r: (Getch, Ask))
    ensures
        r == scan(id, user, guilds, next),
{
    if next < guilds.len() {
        let guild = guilds[next];
        (Getch::Presence { user, guilds, next: next + 1 }, Ask::MainPresence { guild, user: id })
    } else {
        (Getch::Finished, Ask::Found(IUser { user, status: Status::Unknown }))
    }
}

impl Database {
    /// Takes one step in looking up the user `id`.
    ///
    /// Start with [`Getch::Start`] and any answer. Ask what comes back, hand
    /// the answer to the next call together with the state that came back,
    /// and stop at [`Ask::Found`] or [`Ask::NotFound`].
    pub fn getch(&self, id: u64, state: Getch, answer: Answer) -> (r: (Getch, Ask))
        ensures
            r == step(id, state, answer),
    {
        match state {
            Getch::Start => (Getch::Main, Ask::MainUser { user: id }),
            Getch::Main => match answer {
                Answer::User(user) => (Getch::Guilds(user), Ask::MainGuilds),
                _ => (Getch::Servers, Ask::ServersUser { user: id }),
            },
            Getch::Guilds(user) => match answer {
                Answer::Guilds(guilds) => scan_guilds(id, user, guilds, 0),
                _ => (Getch::Finished, Ask::Found(IUser { user, status: Status::Unknown })),
            },
            Getch::Presence { user, guilds, next } => match answer {
                Answer::Presence(presence) => (
                    Getch::Finished,
                    Ask::Found(IUser { user, status: presence.status() }),
                ),
                _ => scan_guilds(id, user, guilds, next),
            },
            Getch::Servers => match answer {
                Answer::User(user) => (
                    Getch::Finished,
                    Ask::Found(IUser { user, status: Status::Unknown }),
                ),
                _ => (Getch::Fetcher, Ask::FetchUser { user: id }),
            },
            Getch::Fetcher => match answer {
                Answer::User(user) => (
                    Getch::Finished,
                    Ask::Found(IUser { user, status: Status::Unknown }),
                ),
                _ => (Getch::Finished, Ask::NotFound),
            },
            Getch::Finished => (Getch::Finished, Ask::NotFound),
        }
    }
}

/// What the sessions and the fetcher hold for one user at one moment.
pub struct Sessions {
    /// The user in the main session's cache.
    pub main_user: Option<User>,
    /// The guilds that the main session tracks, in scan order.
    pub guilds: Vec<u64>,
    /// The user's presence in each guild that holds one.
    pub presences: Map<u64, OnlineStatus>,
    /// The user in the servers session's cache.
    pub servers_user: Option<User>,
    /// The user as fetched, where the fetch succeeds.
    pub fetched: Option<User>,
}

impl Sessions {
    /// What a cache or the fetcher answers.
    pub open spec fn user_answer(user: Option<User>) -> Answer {
        match user {
            Some(u) => Answer::User(u),
            None => Answer::Nothing,
        }
    }

    /// The answer to a question.
    pub open spec fn answer(self, ask: Ask) -> Answer {
        match ask {
            Ask::MainUser { .. } => Self::user_answer(self.main_user),
            Ask::MainGuilds => Answer::Guilds(self.guilds),
            Ask::MainPresence { guild, .. } => if self.presences.contains_key(guild) {
                Answer::Presence(self.presences[guild])
            } else {
                Answer::Nothing
            },
            Ask::ServersUser { .. } => Self::user_answer(self.servers_user),
            Ask::FetchUser { .. } => Self::user_answer(self.fetched),
            Ask::Found(_) => Answer::Nothing,
            Ask::NotFound => Answer::Nothing,
        }
    }

    /// A bound on the questions still to come.
    pub open spec fn questions_left(self, state: Getch, answer: Answer) -> nat {
        match state {
            Getch::Start => (self.guilds.len() + 4) as nat,
            Getch::Main => (self.guilds.len() + 3) as nat,
            Getch::Guilds(_) => match answer {
                Answer::Guilds(guilds) => (guilds.len() + 1) as nat,
                _ => 1,
            },
            Getch::Presence { guilds, next, .. } => if next < guilds.len() {
                (guilds.len() - next) as nat
            } else {
                0
            },
            Getch::Servers => 2,
            Getch::Fetcher => 1,
            Getch::Finished => 0,
        }
    }

    /// How a lookup ends that stands in `state`, was answered `answer`, and
    /// is answered by these sessions from then on.
    pub open spec fn outcome(self, id: u64, state: Getch, answer: Answer) -> Option<IUser>
        decreases self.questions_left(state, answer),
    {
        let (next, ask) = step(id, state, answer);
        match ask {
            Ask::Found(found) => Some(found),
            Ask::NotFound => None,
            _ => self.outcome(id, next, self.answer(ask)),
        }
    }

    /// The status that the first tracked guild at or after position `from`
    /// with a presence of the user gives; unknown where there is none.
    pub open spec fn status_from(self, from: nat) -> Status
        decreases self.guilds.len() - from,
    {
        if from >= self.guilds.len() {
            Status::Unknown
        } else if self.presences.contains_key(self.guilds@[from as int]) {
            self.presences[self.guilds@[from as int]].shown()
        } else {
            self.status_from(from + 1)
        }
    }

    /// Whether some tracked guild holds a presence of the user.
    pub open spec fn has_presence(self) -> bool {
        exists|k: int|
            0 <= k < self.guilds@.len() && self.presences.contains_key(#[trigger] self.guilds@[k])
    }

    /// The user that the tiers give: the main session's, with the status of
    /// the first tracked guild that holds a presence; else the servers
    /// session's; else the fetched one; the latter two with status unknown.
    pub open spec fn resolved(self) -> Option<IUser> {
        match self.main_user {
            Some(user) => Some(IUser { user, status: self.status_from(0) }),
            None => match self.servers_user {
                Some(user) => Some(IUser { user, status: Status::Unknown }),
                None => match self.fetched {
                    Some(user) => Some(IUser { user, status: Status::Unknown }),
                    None => None,
                },
            },
        }
    }
}

/// The presence scan ends with the status of the first guild that holds a
/// presence.
proof fn lemma_scan_outcome(w: Sessions, id: u64, user: User, next: usize)
    requires
        1 <= next <= w.guilds.len(),
    ensures
        w.outcome(
            id,
            Getch::Presence { user, guilds: w.guilds, next },
            w.answer(Ask::MainPresence { guild: w.guilds@[next - 1], user: id }),
        ) == Some(IUser { user, status: w.status_from((next - 1) as nat) }),
    decreases w.guilds.len() - next,
{
    let state = Getch::Presence { user, guilds: w.guilds, next };
    let answer = w.answer(Ask::MainPresence { guild: w.guilds@[next - 1], user: id });
    let from = (next - 1) as nat;
    if w.presences.contains_key(w.guilds@[next - 1]) {
        assert(w.status_from(from) == w.presences[w.guilds@[next - 1]].shown());
    } else {
        assert(answer == Answer::Nothing);
        assert(step(id, state, answer) == scan(id, user, w.guilds, next));
        assert(w.status_from(from) == w.status_from(from + 1));
        if next < w.guilds.len() {
            lemma_scan_outcome(w, id, user, (next + 1) as usize);
        } else {
            assert(w.status_from(from + 1) == Status::Unknown);
        }
    }
}

/// Without a presence in any tracked guild the status is unknown.
proof fn lemma_status_unknown(w: Sessions, from: nat)
    requires
        !w.has_presence(),
    ensures
        w.status_from(from) == Status::Unknown,
    decreases w.guilds.len() - from,
{
    if from < w.guilds.len() {
        assert(!w.presences.contains_key(w.guilds@[from as int]));
        lemma_status_unknown(w, from + 1);
    }
}

/// A lookup answered by the sessions ends with the user that the tiers
/// give.
pub proof fn law_lookup_resolves(w: Sessions, id: u64, answer: Answer)
    ensures
        w.outcome(id, Getch::Start, answer) == w.resolved(),
{
    let first = w.answer(Ask::MainUser { user: id });
    assert(w.outcome(id, Getch::Start, answer) == w.outcome(id, Getch::Main, first));
    match w.main_user {
        Some(user) => {
            let guilds = w.answer(Ask::MainGuilds);
            assert(w.outcome(id, Getch::Main, first) == w.outcome(id, Getch::Guilds(user), guilds));
            if w.guilds.len() > 0 {
                lemma_scan_outcome(w, id, user, 1);
            }
        },
        None => {
            let second = w.answer(Ask::ServersUser { user: id });
            assert(w.outcome(id, Getch::Main, first) == w.outcome(id, Getch::Servers, second));
            match w.servers_user {
                Some(user) => {},
                None => {
                    let third = w.answer(Ask::FetchUser { user: id });
                    assert(w.outcome(id, Getch::Servers, second) == w.outcome(
                        id,
                        Getch::Fetcher,
                        third,
                    ));
                },
            }
        },
    }
}

/// The status of a user that is found comes from a presence only where the
/// main session holds the user and some tracked guild holds a presence of
/// the user. Where either is missing the status is unknown.
pub proof fn law_status_needs_presence(w: Sessions, id: u64, answer: Answer)
    ensures
        match w.outcome(id, Getch::Start, answer) {
            Some(found) => if w.main_user is Some && w.has_presence() {
                found.status == w.status_from(0)
            } else {
                found.status == Status::Unknown
            },
            None => true,
        },
{
    law_lookup_resolves(w, id, answer);
    if !w.has_presence() {
        lemma_status_unknown(w, 0);
    }
}

/// No user is found where neither cache holds the user and the fetch fails.
pub proof fn law_all_tiers_missing(w: Sessions, id: u64, answer: Answer)
    requires
        w.main_user is None,
        w.servers_user is None,
        w.fetched is None,
    ensures
        w.outcome(id, Getch::Start, answer) is None,
{
    law_lookup_resolves(w, id, answer);
}

} // verus!
