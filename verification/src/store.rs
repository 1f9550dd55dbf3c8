//! What an update does to the persisted flags of a user, given a store that
//! performs every operation it is asked for.

use crate::flags::{
    initial, lemma_next_open, lemma_settled_on_stays, lemma_step_decreases, next_open, steps_left,
    Action, Observed, Pending, SyncState, Update,
};
use vstd::prelude::*;

verus! {

/// The persisted flags once every occurrence of `flag` is removed.
pub open spec fn removed(flags: Seq<i32>, flag: i32) -> Seq<i32>
    decreases flags.len(),
{
    if flags.len() == 0 {
        flags
    } else if flags.last() == flag {
        removed(flags.drop_last(), flag)
    } else {
        removed(flags.drop_last(), flag).push(flags.last())
    }
}

/// The persisted flags once the store has performed `action`.
pub open spec fn performed(flags: Seq<i32>, action: Action) -> Seq<i32> {
    match action {
        Action::RemoveFlag { flag, .. } => removed(flags, flag),
        Action::AppendFlag { flag, .. } => flags.push(flag),
        _ => flags,
    }
}

/// What the caller observes of `action` once it is performed and has left
/// the persisted flags as `flags`.
pub open spec fn observed(flags: Seq<i32>, action: Action) -> Observed {
    match action {
        Action::ReadFlags { .. } => Observed::Flags(flags),
        _ => Observed::Succeeded,
    }
}

/// The persisted flags at the end of an update that stands in state `s`,
/// has observed `last`, and meets a store that holds `flags` and performs
/// every action.
pub open spec fn settle(u: Update, s: SyncState, last: Observed, flags: Seq<i32>) -> Seq<i32>
    decreases steps_left(u, s),
{
    let (t, action) = u.step(s, last);
    if action == Action::Done {
        flags
    } else {
        proof {
            lemma_step_decreases(u, s, last);
        }
        let after = performed(flags, action);
        settle(u, t, observed(after, action), after)
    }
}

/// The actions that the update asks for before it is done, from the same
/// state and against the same store as in [`settle`].
pub open spec fn issued(u: Update, s: SyncState, last: Observed, flags: Seq<i32>) -> Seq<Action>
    decreases steps_left(u, s),
{
    let (t, action) = u.step(s, last);
    if action == Action::Done {
        Seq::empty()
    } else {
        proof {
            lemma_step_decreases(u, s, last);
        }
        let after = performed(flags, action);
        seq![action] + issued(u, t, observed(after, action), after)
    }
}

impl Update {
    /// Whether some attribute carries `flag`.
    pub open spec fn mentions(self, flag: i32) -> bool {
        exists|i: int| 0 <= i < self.roles.len() && (#[trigger] self.roles[i]).1.flag == flag
    }

    /// Whether the member holds the role of some attribute that carries
    /// `flag`.
    pub open spec fn grants(self, flag: i32) -> bool {
        exists|i: int|
            0 <= i < self.roles.len() && (#[trigger] self.roles[i]).1.flag == flag
                && self.held.contains(self.roles[i].1.id)
    }

    /// Whether the attribute at `i` is the first that carries `flag`, and the
    /// member holds its role.
    pub open spec fn first_carrier_held_at(self, flag: i32, i: int) -> bool {
        &&& 0 <= i < self.roles.len()
        &&& self.roles[i].1.flag == flag
        &&& self.held.contains(self.roles[i].1.id)
        &&& forall|j: int| 0 <= j < i ==> (#[trigger] self.roles[j]).1.flag != flag
    }

    /// Whether the member holds the role of the first attribute, in scan
    /// order, that carries `flag`.
    pub open spec fn first_carrier_held(self, flag: i32) -> bool {
        exists|i: int| self.first_carrier_held_at(flag, i)
    }

    /// The flags a user is left with: of the flags that attributes carry,
    /// those that a held role grants; of all others, those held before.
    pub open spec fn settled(self, before: Set<i32>) -> Set<i32> {
        Set::new(
            |flag: i32|
                if self.mentions(flag) {
                    self.grants(flag)
                } else {
                    before.contains(flag)
                },
        )
    }
}

/// Removing a flag leaves every other flag in place.
proof fn lemma_removed(flags: Seq<i32>, flag: i32)
    ensures
        forall|f: i32| #[trigger]
            removed(flags, flag).contains(f) <==> flags.contains(f) && f != flag,
    decreases flags.len(),
{
    if flags.len() > 0 {
        let front = flags.drop_last();
        let rest = removed(front, flag);
        let out = removed(flags, flag);
        lemma_removed(front, flag);
        assert forall|f: i32| #[trigger] out.contains(f) <==> flags.contains(f) && f != flag by {
            assert(rest.contains(f) <==> front.contains(f) && f != flag);
            if front.contains(f) {
                let i = choose|i: int| 0 <= i < front.len() && front[i] == f;
                assert(flags[i] == f);
            }
            if flags.contains(f) && !front.contains(f) {
                let i = choose|i: int| 0 <= i < flags.len() && flags[i] == f;
                if i < front.len() {
                    assert(front[i] == f);
                }
                assert(flags.last() == f);
            }
            if flags.last() != flag {
                assert(out[rest.len() as int] == flags.last());
                if rest.contains(f) {
                    let i = choose|i: int| 0 <= i < rest.len() && rest[i] == f;
                    assert(out[i] == f);
                }
                if out.contains(f) {
                    let i = choose|i: int| 0 <= i < out.len() && out[i] == f;
                    if i < rest.len() {
                        assert(rest[i] == f);
                    }
                }
            }
        }
    }
}

/// What holds of the persisted flags `now` once the first `k` attributes are
/// dealt with and `decided` is decided, where `before` was persisted at the
/// start.
spec fn kept(u: Update, k: nat, decided: Seq<i32>, now: Seq<i32>, before: Seq<i32>) -> bool {
    &&& forall|f: i32| !u.mentions(f) ==> (now.contains(f) <==> before.contains(f))
    &&& forall|f: i32| #[trigger] decided.contains(f) ==> now.contains(f) && u.grants(f)
    &&& forall|i: int|
        0 <= i < k && i < u.roles.len() ==> decided.contains((#[trigger] u.roles[i]).1.flag) || (
        !u.held.contains(u.roles[i].1.id) && !now.contains(u.roles[i].1.flag))
}

/// What holds between two steps of an update met by a store that performs
/// every action.
spec fn on_course(u: Update, s: SyncState, last: Observed, now: Seq<i32>, before: Seq<i32>) -> bool {
    match s.pending {
        Pending::Ready => kept(u, s.next, s.decided, now, before),
        Pending::Written => kept(u, s.next, s.decided, now, before),
        Pending::Finished => kept(u, u.roles.len(), s.decided, now, before),
        Pending::Read(flag) => {
            &&& last == Observed::Flags(now)
            &&& 1 <= s.next <= u.roles.len()
            &&& u.roles[s.next - 1].1.flag == flag
            &&& u.held.contains(u.roles[s.next - 1].1.id)
            &&& kept(u, (s.next - 1) as nat, s.decided, now, before)
        },
        Pending::Removed(flag) => kept(u, s.next, s.decided, now.push(flag), before),
        Pending::Reported(flag) => kept(u, s.next, s.decided, now.push(flag), before),
    }
}

/// A scan keeps the update on course.
proof fn lemma_scan_on_course(u: Update, s: SyncState, now: Seq<i32>, before: Seq<i32>)
    requires
        kept(u, s.next, s.decided, now, before),
    ensures
        ({
            let (t, action) = u.scan(s);
            let after = performed(now, action);
            on_course(u, t, observed(after, action), after, before)
        }),
{
    let (t, action) = u.scan(s);
    let after = performed(now, action);
    let i = next_open(u.roles, s.decided, s.next);
    lemma_next_open(u.roles, s.decided, s.next);
    if i < u.roles.len() {
        let role = u.roles[i as int].1;
        if !u.held.contains(role.id) {
            lemma_removed(now, role.flag);
            assert(u.mentions(role.flag));
            assert forall|f: i32| #[trigger] s.decided.contains(f) implies after.contains(f)
                && u.grants(f) by {
                assert(removed(now, role.flag).contains(f) <==> now.contains(f) && f != role.flag);
            }
            assert forall|j: int| 0 <= j < t.next && j < u.roles.len() implies s.decided.contains(
                (#[trigger] u.roles[j]).1.flag,
            ) || (!u.held.contains(u.roles[j].1.id) && !after.contains(u.roles[j].1.flag)) by {
                let f = u.roles[j].1.flag;
                assert(removed(now, role.flag).contains(f) <==> now.contains(f) && f != role.flag);
            }
            assert forall|f: i32| !u.mentions(f) implies (after.contains(f) <==> before.contains(
                f,
            )) by {
                assert(removed(now, role.flag).contains(f) <==> now.contains(f) && f != role.flag);
            }
        }
    }
}

/// A step keeps the update on course.
proof fn lemma_step_on_course(u: Update, s: SyncState, last: Observed, now: Seq<i32>, before: Seq<i32>)
    requires
        on_course(u, s, last, now, before),
    ensures
        ({
            let (t, action) = u.step(s, last);
            let after = performed(now, action);
            on_course(u, t, observed(after, action), after, before)
        }),
{
    match s.pending {
        Pending::Ready => {
            lemma_scan_on_course(u, s, now, before);
        },
        Pending::Written => {
            lemma_scan_on_course(u, s, now, before);
        },
        Pending::Finished => {},
        Pending::Read(flag) => {
            let marked = SyncState { next: s.next, decided: s.decided.push(flag), pending: s.pending };
            assert(u.grants(flag));
            assert forall|f: i32| #[trigger] marked.decided.contains(f) implies f == flag
                || s.decided.contains(f) by {
                let i = choose|i: int| 0 <= i < marked.decided.len() && marked.decided[i] == f;
                if i < s.decided.len() {
                    assert(s.decided[i] == f);
                }
            }
            assert forall|f: i32| s.decided.contains(f) implies #[trigger] marked.decided.contains(
                f,
            ) by {
                let i = choose|i: int| 0 <= i < s.decided.len() && s.decided[i] == f;
                assert(marked.decided[i] == f);
            }
            assert(marked.decided[s.decided.len() as int] == flag);
            assert(marked.decided.contains(flag));
            if now.contains(flag) {
                assert(kept(u, marked.next, marked.decided, now, before));
                lemma_scan_on_course(u, marked, now, before);
            } else {
                lemma_removed(now, flag);
                let after = removed(now, flag);
                let then = after.push(flag);
                assert(then[after.len() as int] == flag);
                assert forall|f: i32| #[trigger] then.contains(f) <==> now.contains(f) || f
                    == flag by {
                    assert(after.contains(f) <==> now.contains(f) && f != flag);
                    if then.contains(f) {
                        let i = choose|i: int| 0 <= i < then.len() && then[i] == f;
                        if i < after.len() {
                            assert(after[i] == f);
                        }
                    }
                    if after.contains(f) {
                        let i = choose|i: int| 0 <= i < after.len() && after[i] == f;
                        assert(then[i] == f);
                    }
                }
                assert(u.mentions(flag));
                assert(kept(u, s.next, marked.decided, then, before));
            }
        },
        Pending::Removed(flag) => {},
        Pending::Reported(flag) => {},
    }
}

/// At the end of an update on course the flags are settled.
proof fn lemma_kept_is_settled(u: Update, decided: Seq<i32>, now: Seq<i32>, before: Seq<i32>)
    requires
        kept(u, u.roles.len(), decided, now, before),
    ensures
        now.to_set() == u.settled(before.to_set()),
{
    assert forall|f: i32| now.to_set().contains(f) <==> u.settled(before.to_set()).contains(f) by {
        if u.mentions(f) {
            if u.grants(f) {
                let i = choose|i: int|
                    0 <= i < u.roles.len() && (#[trigger] u.roles[i]).1.flag == f
                        && u.held.contains(u.roles[i].1.id);
                assert(decided.contains(u.roles[i].1.flag));
            } else {
                let i = choose|i: int| 0 <= i < u.roles.len() && (#[trigger] u.roles[i]).1.flag == f;
                assert(!decided.contains(u.roles[i].1.flag));
            }
        }
    }
    assert(now.to_set() =~= u.settled(before.to_set()));
}

/// An update on course ends with the flags settled.
proof fn lemma_settle(u: Update, s: SyncState, last: Observed, now: Seq<i32>, before: Seq<i32>)
    requires
        on_course(u, s, last, now, before),
    ensures
        settle(u, s, last, now).to_set() == u.settled(before.to_set()),
    decreases steps_left(u, s),
{
    let (t, action) = u.step(s, last);
    lemma_step_on_course(u, s, last, now, before);
    lemma_step_decreases(u, s, last);
    if action == Action::Done {
        lemma_kept_is_settled(u, t.decided, now, before);
    } else {
        let after = performed(now, action);
        lemma_settle(u, t, observed(after, action), after, before);
    }
}

/// An update settles the persisted flags: whatever order the attributes are
/// scanned in, a user is left with the flags that the held roles grant and
/// with the flags that no attribute carries.
pub proof fn law_update_settles(u: Update, last: Observed, flags: Seq<i32>)
    ensures
        settle(u, initial(), last, flags).to_set() == u.settled(flags.to_set()),
{
    lemma_settle(u, initial(), last, flags, flags);
}

/// Working the same update off twice leaves the same set of persisted flags
/// as working it off once.
pub proof fn law_update_is_idempotent(u: Update, first: Observed, second: Observed, flags: Seq<i32>)
    ensures
        settle(u, initial(), second, settle(u, initial(), first, flags)).to_set() == settle(
            u,
            initial(),
            first,
            flags,
        ).to_set(),
{
    let once = settle(u, initial(), first, flags);
    law_update_settles(u, first, flags);
    law_update_settles(u, second, once);
    assert(u.settled(u.settled(flags.to_set())) =~= u.settled(flags.to_set()));
}

/// What holds between two steps of an update that leaves `flag` alone: the
/// flag is persisted, and the update either has not reached the first
/// attribute that carries it, or has just asked for the read on its behalf,
/// or has settled on it.
spec fn guarded(u: Update, s: SyncState, last: Observed, now: Seq<i32>, flag: i32, first: int) -> bool {
    &&& now.contains(flag)
    &&& u.first_carrier_held_at(flag, first)
    &&& {
        ||| s.settled_on(flag)
        ||| (s.pending == Pending::Read(flag) && last == Observed::Flags(now) && !s.decided.contains(
            flag,
        ))
        ||| {
            &&& s.next <= first
            &&& !s.decided.contains(flag)
            &&& s.pending != Pending::Read(flag)
            &&& s.pending != Pending::Removed(flag)
            &&& s.pending != Pending::Reported(flag)
            &&& s.pending != Pending::Finished
        }
    }
}

/// A flag that is not written stays persisted.
proof fn lemma_unwritten_stays(now: Seq<i32>, action: Action, flag: i32)
    requires
        now.contains(flag),
        !action.writes(flag),
    ensures
        performed(now, action).contains(flag),
{
    let i = choose|i: int| 0 <= i < now.len() && now[i] == flag;
    match action {
        Action::RemoveFlag { flag: other, .. } => {
            lemma_removed(now, other);
        },
        Action::AppendFlag { flag: other, .. } => {
            assert(now.push(other)[i] == flag);
        },
        _ => {},
    }
}

/// A scan that has not passed the first carrier of a flag leaves the flag
/// alone.
proof fn lemma_scan_guarded(u: Update, s: SyncState, now: Seq<i32>, flag: i32, first: int)
    requires
        now.contains(flag),
        u.first_carrier_held_at(flag, first),
        s.next <= first,
        !s.decided.contains(flag),
    ensures
        ({
            let (t, action) = u.scan(s);
            let after = performed(now, action);
            &&& action != Action::Done
            &&& !action.writes(flag)
            &&& guarded(u, t, observed(after, action), after, flag, first)
        }),
{
    let (t, action) = u.scan(s);
    let i = next_open(u.roles, s.decided, s.next);
    lemma_next_open(u.roles, s.decided, s.next);
    if i > first {
        assert(s.decided.contains(u.roles[first].1.flag));
    }
    if i < first {
        assert(u.roles[i as int].1.flag != flag);
    }
    lemma_unwritten_stays(now, action, flag);
}

/// A step of an update that leaves `flag` alone does not write it, and the
/// update goes on leaving it alone.
proof fn lemma_step_guarded(u: Update, s: SyncState, last: Observed, now: Seq<i32>, flag: i32, first: int)
    requires
        guarded(u, s, last, now, flag, first),
    ensures
        ({
            let (t, action) = u.step(s, last);
            let after = performed(now, action);
            &&& !action.writes(flag)
            &&& action != Action::Done ==> guarded(u, t, observed(after, action), after, flag, first)
        }),
{
    let (t, action) = u.step(s, last);
    if s.settled_on(flag) {
        lemma_settled_on_stays(u, s, last, flag);
        lemma_unwritten_stays(now, action, flag);
    } else if s.pending == Pending::Read(flag) {
        let marked = SyncState { next: s.next, decided: s.decided.push(flag), pending: Pending::Ready };
        assert(marked.decided[s.decided.len() as int] == flag);
        assert(u.step(s, last) == u.step(marked, Observed::Succeeded));
        lemma_settled_on_stays(u, marked, Observed::Succeeded, flag);
        lemma_unwritten_stays(now, action, flag);
    } else {
        match s.pending {
            Pending::Ready => {
                lemma_scan_guarded(u, s, now, flag, first);
            },
            Pending::Written => {
                lemma_scan_guarded(u, s, now, flag, first);
                lemma_unwritten_stays(now, action, flag);
            },
            Pending::Read(other) => {
                let marked = SyncState {
                    next: s.next,
                    decided: s.decided.push(other),
                    pending: s.pending,
                };
                assert(!marked.decided.contains(flag)) by {
                    if marked.decided.contains(flag) {
                        let i = choose|i: int| 0 <= i < marked.decided.len() && marked.decided[i] == flag;
                        if i < s.decided.len() {
                            assert(s.decided[i] == flag);
                        }
                    }
                }
                lemma_scan_guarded(u, marked, now, flag, first);
                lemma_scan_guarded(u, s, now, flag, first);
                lemma_unwritten_stays(now, action, flag);
            },
            Pending::Removed(other) => {
                lemma_unwritten_stays(now, action, flag);
            },
            Pending::Reported(other) => {
                lemma_unwritten_stays(now, action, flag);
            },
            Pending::Finished => {},
        }
    }
}

/// An update that leaves `flag` alone asks for no write of it.
proof fn lemma_issued_guarded(u: Update, s: SyncState, last: Observed, now: Seq<i32>, flag: i32, first: int)
    requires
        guarded(u, s, last, now, flag, first),
    ensures
        forall|k: int|
            0 <= k < issued(u, s, last, now).len() ==> !(#[trigger] issued(u, s, last, now)[k]).writes(
                flag,
            ),
    decreases steps_left(u, s),
{
    let (t, action) = u.step(s, last);
    lemma_step_guarded(u, s, last, now, flag, first);
    lemma_step_decreases(u, s, last);
    let all = issued(u, s, last, now);
    if action != Action::Done {
        let after = performed(now, action);
        let rest = issued(u, t, observed(after, action), after);
        lemma_issued_guarded(u, t, observed(after, action), after, flag, first);
        assert(all == seq![action] + rest);
        assert forall|k: int| 0 <= k < all.len() implies !(#[trigger] all[k]).writes(flag) by {
            if k > 0 {
                assert(all[k] == rest[k - 1]);
            }
        }
    }
}

/// Where a flag is persisted already and the member holds the role of the
/// first attribute that carries it, the update asks for no write of that
/// flag.
pub proof fn law_persisted_flag_is_not_written(u: Update, last: Observed, flags: Seq<i32>, flag: i32)
    requires
        flags.contains(flag),
        u.first_carrier_held(flag),
    ensures
        forall|k: int|
            0 <= k < issued(u, initial(), last, flags).len() ==> !(#[trigger] issued(
                u,
                initial(),
                last,
                flags,
            )[k]).writes(flag),
{
    let first = choose|i: int| u.first_carrier_held_at(flag, i);
    lemma_issued_guarded(u, initial(), last, flags, flag, first);
}

} // verus!
