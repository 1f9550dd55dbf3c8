//! Keeps the persisted flags of a user in step with the roles the user holds.
//!
//! A change of a member's roles is worked off one store operation at a time.
//! The handler decides; its caller performs each operation against the store
//! and hands back how it went.

use crate::config::Discord;
use crate::roles::{has_flag, holds, Member, NormalRole};
use vstd::prelude::*;

verus! {

/// What the handler waits for between two steps.
#[derive(Clone, Copy, Debug, PartialEq, Eq, Structural)]
pub enum Pending {
    /// Nothing whose outcome matters.
    Ready,
    /// The user's persisted flags, read on behalf of an attribute with this
    /// flag whose role the user holds.
    Read(i32),
    /// The outcome of the remove that goes before the append of this flag.
    Removed(i32),
    /// The report of that remove's failure. The append follows.
    Reported(i32),
    /// The outcome of the last write for an attribute.
    Written,
    /// The update is worked off.
    Finished,
}

/// What the caller is to do next.
#[derive(Clone, Copy, Debug, PartialEq, Eq, Structural)]
pub enum Action {
    /// Read the persisted flags of the user.
    ReadFlags { user: i64 },
    /// Remove every occurrence of the flag from the user's persisted flags.
    RemoveFlag { user: i64, flag: i32 },
    /// Append the flag to the user's persisted flags.
    AppendFlag { user: i64, flag: i32 },
    /// Report the failure of the last store operation to this channel.
    Report { channel: u64 },
    /// Nothing is left to do.
    Done,
}

/// How the last action went.
#[derive(Clone, Debug, PartialEq, Eq)]
pub enum Outcome {
    /// The read gave these flags.
    Flags(Vec<i32>),
    /// The operation succeeded.
    Succeeded,
    /// The operation failed.
    Failed,
}

/// An [`Outcome`] as contracts see it.
pub enum Observed {
    Flags(Seq<i32>),
    Succeeded,
    Failed,
}

impl View for Outcome {
    type V = Observed;

    open spec fn view(&self) -> Observed {
        match self {
            Outcome::Flags(flags) => Observed::Flags(flags@),
            Outcome::Succeeded => Observed::Succeeded,
            Outcome::Failed => Observed::Failed,
        }
    }
}

/// Where the handler stands in working off one update.
#[derive(Clone, Debug, PartialEq, Eq)]
pub struct FlagSync {
    /// The position of the first attribute not looked at yet.
    pub next: usize,
    /// The flags decided during this update. None of them is touched again.
    pub decided: Vec<i32>,
    /// What the handler waits for.
    pub pending: Pending,
}

/// A [`FlagSync`] as contracts see it.
pub struct SyncState {
    pub next: nat,
    pub decided: Seq<i32>,
    pub pending: Pending,
}

impl View for FlagSync {
    type V = SyncState;

    open spec fn view(&self) -> SyncState {
        SyncState { next: self.next as nat, decided: self.decided@, pending: self.pending }
    }
}

/// One update as contracts see it: the attributes in scan order, the channel
/// that errors go to, and the member whose roles changed.
pub struct Update {
    pub roles: Seq<(String, NormalRole)>,
    pub channel: Option<u64>,
    pub user: u64,
    pub held: Seq<u64>,
}

/// The key under which the store keeps a user: the id as a signed 64-bit
/// number in two's complement.
pub open spec fn store_key(user: u64) -> int {
    if user <= i64::MAX {
        user as int
    } else {
        user - 0x1_0000_0000_0000_0000
    }
}

/// The state in which an update starts.
pub open spec fn initial() -> SyncState {
    SyncState { next: 0, decided: Seq::empty(), pending: Pending::Ready }
}

/// The position of the first attribute at or after `from` whose flag is not
/// decided; the number of attributes if there is none.
pub open spec fn next_open(roles: Seq<(String, NormalRole)>, decided: Seq<i32>, from: nat) -> nat
    decreases roles.len() - from,
{
    if from >= roles.len() {
        roles.len()
    } else if !decided.contains(roles[from as int].1.flag) {
        from
    } else {
        next_open(roles, decided, from + 1)
    }
}

impl Update {
    /// Turns to the next attribute whose flag is not decided. Where the user
    /// holds its role the persisted flags are read; where not, the flag is
    /// removed. With no such attribute left the update is finished.
    pub open spec fn scan(self, s: SyncState) -> (SyncState, Action) {
        let i = next_open(self.roles, s.decided, s.next);
        if i >= self.roles.len() {
            (
                SyncState { next: self.roles.len(), decided: s.decided, pending: Pending::Finished },
                Action::Done,
            )
        } else {
            let role = self.roles[i as int].1;
            if self.held.contains(role.id) {
                (
                    SyncState { next: i + 1, decided: s.decided, pending: Pending::Read(role.flag) },
                    Action::ReadFlags { user: store_key(self.user) as i64 },
                )
            } else {
                (
                    SyncState { next: i + 1, decided: s.decided, pending: Pending::Written },
                    Action::RemoveFlag { user: store_key(self.user) as i64, flag: role.flag },
                )
            }
        }
    }

    /// Reports a failure where there is a channel to report to, and goes on
    /// scanning where there is none.
    pub open spec fn report_or_scan(self, s: SyncState) -> (SyncState, Action) {
        match self.channel {
            Some(channel) => (
                SyncState { next: s.next, decided: s.decided, pending: Pending::Ready },
                Action::Report { channel },
            ),
            None => self.scan(s),
        }
    }

    /// Appends `flag` as the last write for its attribute.
    pub open spec fn append(self, s: SyncState, flag: i32) -> (SyncState, Action) {
        (
            SyncState { next: s.next, decided: s.decided, pending: Pending::Written },
            Action::AppendFlag { user: store_key(self.user) as i64, flag },
        )
    }

    /// The next state and the next action, from a state and the outcome of
    /// the action before.
    ///
    /// A read that gives no flags counts as failed. An outcome that is not a
    /// failure counts as success of a write. Outcomes of reports, and the
    /// outcome handed in with the initial state, are not looked at.
    pub open spec fn step(self, s: SyncState, last: Observed) -> (SyncState, Action) {
        match s.pending {
            Pending::Ready => self.scan(s),
            Pending::Read(flag) => match last {
                Observed::Flags(flags) => {
                    let marked = SyncState {
                        next: s.next,
                        decided: s.decided.push(flag),
                        pending: s.pending,
                    };
                    if flags.contains(flag) {
                        self.scan(marked)
                    } else {
                        (
                            SyncState {
                                next: s.next,
                                decided: marked.decided,
                                pending: Pending::Removed(flag),
                            },
                            Action::RemoveFlag { user: store_key(self.user) as i64, flag },
                        )
                    }
                },
                _ => self.report_or_scan(s),
            },
            Pending::Removed(flag) => match (last, self.channel) {
                (Observed::Failed, Some(channel)) => (
                    SyncState { next: s.next, decided: s.decided, pending: Pending::Reported(flag) },
                    Action::Report { channel },
                ),
                _ => self.append(s, flag),
            },
            Pending::Reported(flag) => self.append(s, flag),
            Pending::Written => match last {
                Observed::Failed => self.report_or_scan(s),
                _ => self.scan(s),
            },
            Pending::Finished => (s, Action::Done),
        }
    }
}

impl FlagSync {
    /// The state in which an update starts.
    pub fn new() -> (sync: FlagSync)
        ensures
            sync@ == initial(),
    {
        FlagSync { next: 0, decided: Vec::new(), pending: Pending::Ready }
    }

    /// Whether the update is worked off.
    pub fn finished(&self) -> (r: bool)
        ensures
            r == (self.pending == Pending::Finished),
    {
        match self.pending {
            Pending::Finished => true,
            _ => false,
        }
    }
}

/// Reacts to changes of a member's roles: keeps the flags that general
/// attributes grant in step with the roles held.
#[derive(Clone, Debug, PartialEq, Eq)]
pub struct MainHandler {
    /// The general attributes with their keys, in the order they are scanned.
    pub normal_roles: Vec<(String, NormalRole)>,
    /// The settings that name the error channel.
    pub discord: Discord,
}

/// Converts a user id to the key under which the store keeps the user.
pub fn user_key(user: u64) -> (key: i64)
    ensures
        key == store_key(user),
{
    if user <= 0x7fff_ffff_ffff_ffff {
        user as i64
    } else {
        ((user - 0x8000_0000_0000_0000) as i64) + i64::MIN
    }
}

impl MainHandler {
    /// A handler that works with these general attributes, in this order,
    /// and with these settings.
    pub fn new(normal_roles: Vec<(String, NormalRole)>, discord: Discord) -> (handler: MainHandler)
        ensures
            handler.normal_roles == normal_roles,
            handler.discord == discord,
    {
        MainHandler { normal_roles, discord }
    }

    /// The update that a change to `new` stands for.
    pub open spec fn update(&self, new: &Member) -> Update {
        Update {
            roles: self.normal_roles@,
            channel: self.discord.channels.error_channel(),
            user: new.user,
            held: new.roles@,
        }
    }

    /// Turns to the next attribute whose flag is not decided.
    fn scan(&self, new: &Member, state: FlagSync) -> (r: (FlagSync, Action))
        ensures
            (r.0@, r.1) == self.update(new).scan(state@),
    {
        let ghost before = state@;
        let mut sync = state;
        let mut i: usize = sync.next;
        while i < self.normal_roles.len()
            invariant
                sync@ == before,
                before == state@,
                before.next <= i,
                next_open(self.normal_roles@, before.decided, before.next) == next_open(
                    self.normal_roles@,
                    before.decided,
                    i as nat,
                ),
            decreases self.normal_roles.len() - i,
        {
            let role = &self.normal_roles[i].1;
            if !has_flag(&sync.decided, role.flag) {
                sync.next = i + 1;
                if holds(&new.roles, role.id) {
                    sync.pending = Pending::Read(role.flag);
                    return (sync, Action::ReadFlags { user: user_key(new.user) });
                } else {
                    sync.pending = Pending::Written;
                    return (sync, Action::RemoveFlag { user: user_key(new.user), flag: role.flag });
                }
            }
            i = i + 1;
        }
        sync.next = self.normal_roles.len();
        sync.pending = Pending::Finished;
        (sync, Action::Done)
    }

    /// Reports a failure where the settings name a channel for it, and goes
    /// on scanning where they name none.
    fn report_or_scan(&self, new: &Member, sync: FlagSync) -> (r: (FlagSync, Action))
        ensures
            (r.0@, r.1) == self.update(new).report_or_scan(sync@),
    {
        match self.discord.channels.errors_channel() {
            Some(channel) => {
                let mut sync = sync;
                sync.pending = Pending::Ready;
                (sync, Action::Report { channel })
            },
            None => self.scan(new, sync),
        }
    }

    /// Appends `flag` as the last write for its attribute.
    fn append(&self, new: &Member, sync: FlagSync, flag: i32) -> (r: (FlagSync, Action))
        ensures
            (r.0@, r.1) == self.update(new).append(sync@, flag),
    {
        let mut sync = sync;
        sync.pending = Pending::Written;
        (sync, Action::AppendFlag { user: user_key(new.user), flag })
    }

    /// Takes one step in working off a change to the member `new`.
    ///
    /// Start with [`FlagSync::new`] and any outcome. Perform the action that
    /// comes back, hand its outcome to the next call together with the state
    /// that came back, and stop at [`Action::Done`].
    pub fn guild_member_update(&self, new: &Member, sync: FlagSync, last: Outcome) -> (r: (
        FlagSync,
        Action,
    ))
        ensures
            (r.0@, r.1) == self.update(new).step(sync@, last@),
    {
        match sync.pending {
            Pending::Ready => self.scan(new, sync),
            Pending::Read(flag) => match last {
                Outcome::Flags(flags) => {
                    let mut sync = sync;
                    sync.decided.push(flag);
                    if has_flag(&flags, flag) {
                        self.scan(new, sync)
                    } else {
                        sync.pending = Pending::Removed(flag);
                        (sync, Action::RemoveFlag { user: user_key(new.user), flag })
                    }
                },
                _ => self.report_or_scan(new, sync),
            },
            Pending::Removed(flag) => {
                let failed = match last {
                    Outcome::Failed => true,
                    _ => false,
                };
                if failed {
                    match self.discord.channels.errors_channel() {
                        Some(channel) => {
                            let mut sync = sync;
                            sync.pending = Pending::Reported(flag);
                            (sync, Action::Report { channel })
                        },
                        None => self.append(new, sync, flag),
                    }
                } else {
                    self.append(new, sync, flag)
                }
            },
            Pending::Reported(flag) => self.append(new, sync, flag),
            Pending::Written => match last {
                Outcome::Failed => self.report_or_scan(new, sync),
                _ => self.scan(new, sync),
            },
            Pending::Finished => (sync, Action::Done),
        }
    }
}

/// A bound on the number of actions still to come before [`Action::Done`].
pub open spec fn steps_left(u: Update, s: SyncState) -> nat {
    let rest: nat = if s.next >= u.roles.len() {
        0
    } else {
        (u.roles.len() - s.next) as nat
    };
    let own: nat = match s.pending {
        Pending::Read(_) => 4,
        Pending::Removed(_) => 3,
        Pending::Reported(_) => 2,
        Pending::Written => 1,
        Pending::Ready => 0,
        Pending::Finished => 0,
    };
    5 * rest + own
}

/// The scan stops at or after the place it starts from, passes decided flags
/// only, and stops at a flag that is not decided.
pub proof fn lemma_next_open(roles: Seq<(String, NormalRole)>, decided: Seq<i32>, from: nat)
    ensures
        from <= roles.len() ==> from <= next_open(roles, decided, from) <= roles.len(),
        from > roles.len() ==> next_open(roles, decided, from) == roles.len(),
        forall|i: int|
            from <= i < next_open(roles, decided, from) ==> decided.contains(
                (#[trigger] roles[i]).1.flag,
            ),
        next_open(roles, decided, from) < roles.len() ==> !decided.contains(
            roles[next_open(roles, decided, from) as int].1.flag,
        ),
    decreases roles.len() - from,
{
    if from < roles.len() && decided.contains(roles[from as int].1.flag) {
        lemma_next_open(roles, decided, from + 1);
    }
}

/// Every step that asks for an action brings the update nearer to its end.
pub proof fn lemma_step_decreases(u: Update, s: SyncState, last: Observed)
    ensures
        u.step(s, last).1 != Action::Done ==> steps_left(u, u.step(s, last).0) < steps_left(u, s),
        u.step(s, last).1 == Action::Done ==> u.step(s, last).0.pending == Pending::Finished,
{
    lemma_next_open(u.roles, s.decided, s.next);
    match s.pending {
        Pending::Read(flag) => {
            lemma_next_open(u.roles, s.decided.push(flag), s.next);
        },
        _ => {},
    }
}

impl Action {
    /// Whether the action changes whether `flag` is persisted.
    pub open spec fn writes(self, flag: i32) -> bool {
        match self {
            Action::RemoveFlag { flag: f, .. } => f == flag,
            Action::AppendFlag { flag: f, .. } => f == flag,
            _ => false,
        }
    }
}

impl SyncState {
    /// Whether `flag` is decided and no write of it is still to come.
    pub open spec fn settled_on(self, flag: i32) -> bool {
        &&& self.decided.contains(flag)
        &&& self.pending != Pending::Read(flag)
        &&& self.pending != Pending::Removed(flag)
        &&& self.pending != Pending::Reported(flag)
    }
}

/// The actions that an update asks for, one after the other, from state `s`
/// on, where `outcomes` are handed to it in turn.
pub open spec fn asked(u: Update, s: SyncState, outcomes: Seq<Observed>) -> Seq<Action>
    decreases outcomes.len(),
{
    if outcomes.len() == 0 {
        Seq::empty()
    } else {
        let (t, action) = u.step(s, outcomes.first());
        seq![action] + asked(u, t, outcomes.drop_first())
    }
}

/// Once a flag is settled on, no step writes it, and it stays settled on.
pub proof fn lemma_settled_on_stays(u: Update, s: SyncState, last: Observed, flag: i32)
    requires
        s.settled_on(flag),
    ensures
        !u.step(s, last).1.writes(flag),
        u.step(s, last).0.settled_on(flag),
{
    lemma_next_open(u.roles, s.decided, s.next);
    match s.pending {
        Pending::Read(other) => {
            let marked = s.decided.push(other);
            let i = choose|i: int| 0 <= i < s.decided.len() && s.decided[i] == flag;
            assert(marked[i] == flag);
            lemma_next_open(u.roles, marked, s.next);
        },
        _ => {},
    }
}

/// Whatever the outcomes, a flag that is settled on is never written again
/// during the update.
pub proof fn law_settled_flag_is_not_written(
    u: Update,
    s: SyncState,
    outcomes: Seq<Observed>,
    flag: i32,
)
    requires
        s.settled_on(flag),
    ensures
        asked(u, s, outcomes).len() == outcomes.len(),
        forall|k: int| 0 <= k < outcomes.len() ==> !(#[trigger] asked(u, s, outcomes)[k]).writes(flag),
    decreases outcomes.len(),
{
    if outcomes.len() > 0 {
        let (t, action) = u.step(s, outcomes.first());
        lemma_settled_on_stays(u, s, outcomes.first(), flag);
        law_settled_flag_is_not_written(u, t, outcomes.drop_first(), flag);
    }
}

/// Where the user holds a role that grants `flag` and the read shows the
/// flag persisted, the update writes nothing for that flag from there on,
/// whatever the outcomes.
pub proof fn law_present_flag_is_not_written(
    u: Update,
    s: SyncState,
    flags: Seq<i32>,
    outcomes: Seq<Observed>,
    flag: i32,
)
    requires
        s.pending == Pending::Read(flag),
        flags.contains(flag),
    ensures
        !u.step(s, Observed::Flags(flags)).1.writes(flag),
        forall|k: int|
            0 <= k < outcomes.len() ==> !(#[trigger] asked(
                u,
                u.step(s, Observed::Flags(flags)).0,
                outcomes,
            )[k]).writes(flag),
{
    let marked = SyncState { next: s.next, decided: s.decided.push(flag), pending: Pending::Ready };
    assert(marked.decided[s.decided.len() as int] == flag);
    assert(marked.settled_on(flag));
    assert(u.step(s, Observed::Flags(flags)) == u.step(marked, Observed::Succeeded));
    lemma_settled_on_stays(u, marked, Observed::Succeeded, flag);
    law_settled_flag_is_not_written(u, u.step(s, Observed::Flags(flags)).0, outcomes, flag);
}

} // verus!
