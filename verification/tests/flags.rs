use baypaw::flags::user_key;
use baypaw::{
    Action, Channels, Discord, FlagSync, MainHandler, Member, NormalRole, Outcome, Pending,
    Servers,
};

const CHANNEL: u64 = 822021883737997352;

fn handler_with(channel: &str, roles: &[(u64, i32)]) -> MainHandler {
    let normal_roles = roles
        .iter()
        .enumerate()
        .map(|(i, (id, flag))| {
            (format!("role{}", i), NormalRole { id: *id, flag: *flag, fname: format!("Role {}", i) })
        })
        .collect();
    MainHandler::new(
        normal_roles,
        Discord {
            servers: Servers { main: 1 },
            channels: Channels { site_errors_channel: channel.to_string() },
        },
    )
}

fn handler(roles: &[(u64, i32)]) -> MainHandler {
    handler_with("822021883737997352", roles)
}

fn holder(roles: &[u64]) -> Member {
    Member { user: 563808552288780322, roles: roles.to_vec() }
}

const USER: i64 = 563808552288780322;

/// A store that performs every action, and the actions it was asked for.
fn replay(handler: &MainHandler, member: &Member, flags: &mut Vec<i32>) -> Vec<Action> {
    let mut asked = Vec::new();
    let mut state = FlagSync::new();
    let mut last = Outcome::Succeeded;
    for _ in 0..1000 {
        let (next, action) = handler.guild_member_update(member, state, last);
        state = next;
        asked.push(action);
        last = match action {
            Action::ReadFlags { .. } => Outcome::Flags(flags.clone()),
            Action::RemoveFlag { flag, .. } => {
                flags.retain(|f| *f != flag);
                Outcome::Succeeded
            }
            Action::AppendFlag { flag, .. } => {
                flags.push(flag);
                Outcome::Succeeded
            }
            Action::Report { .. } => Outcome::Succeeded,
            Action::Done => {
                assert!(state.finished());
                return asked;
            }
        };
    }
    panic!("the update does not end");
}

/// The actions asked for where the outcomes are these, whatever is asked.
fn script(handler: &MainHandler, member: &Member, outcomes: Vec<Outcome>) -> Vec<Action> {
    let mut asked = Vec::new();
    let mut state = FlagSync::new();
    let mut last = Outcome::Succeeded;
    let mut outcomes = outcomes.into_iter();
    loop {
        let (next, action) = handler.guild_member_update(member, state, last);
        state = next;
        asked.push(action);
        if action == Action::Done {
            return asked;
        }
        last = outcomes.next().expect("the script is too short");
    }
}

fn sorted_set(flags: &[i32]) -> Vec<i32> {
    let mut set = flags.to_vec();
    set.sort();
    set.dedup();
    set
}

#[test]
fn new_state_is_ready_at_the_first_attribute() {
    let state = FlagSync::new();
    assert_eq!(state.next, 0);
    assert!(state.decided.is_empty());
    assert_eq!(state.pending, Pending::Ready);
    assert!(!state.finished());
}

#[test]
fn no_attributes_nothing_to_do() {
    let mut flags = vec![3];
    assert_eq!(replay(&handler(&[]), &holder(&[1]), &mut flags), vec![Action::Done]);
    assert_eq!(flags, vec![3]);
}

#[test]
fn held_role_with_flag_missing_is_removed_then_appended() {
    let mut flags = vec![1, 2];
    let asked = replay(&handler(&[(100, 7)]), &holder(&[100]), &mut flags);
    assert_eq!(
        asked,
        vec![
            Action::ReadFlags { user: USER },
            Action::RemoveFlag { user: USER, flag: 7 },
            Action::AppendFlag { user: USER, flag: 7 },
            Action::Done,
        ]
    );
    assert_eq!(flags, vec![1, 2, 7]);
}

#[test]
fn held_role_with_flag_present_is_only_read() {
    let mut flags = vec![1, 7, 2];
    let asked = replay(&handler(&[(100, 7)]), &holder(&[100]), &mut flags);
    assert_eq!(asked, vec![Action::ReadFlags { user: USER }, Action::Done]);
    assert_eq!(flags, vec![1, 7, 2]);
}

#[test]
fn role_not_held_has_its_flag_removed() {
    let mut flags = vec![7, 1, 7];
    let asked = replay(&handler(&[(100, 7)]), &holder(&[5]), &mut flags);
    assert_eq!(asked, vec![Action::RemoveFlag { user: USER, flag: 7 }, Action::Done]);
    assert_eq!(flags, vec![1]);
}

#[test]
fn flag_is_read_afresh_for_each_held_role() {
    let mut flags = vec![];
    let asked = replay(&handler(&[(100, 7), (200, 8)]), &holder(&[200, 100]), &mut flags);
    assert_eq!(
        asked,
        vec![
            Action::ReadFlags { user: USER },
            Action::RemoveFlag { user: USER, flag: 7 },
            Action::AppendFlag { user: USER, flag: 7 },
            Action::ReadFlags { user: USER },
            Action::RemoveFlag { user: USER, flag: 8 },
            Action::AppendFlag { user: USER, flag: 8 },
            Action::Done,
        ]
    );
    assert_eq!(flags, vec![7, 8]);
}

#[test]
fn decided_flag_is_not_touched_again() {
    // Two roles grant flag 7; the user holds the first only.
    let mut flags = vec![];
    let asked = replay(&handler(&[(100, 7), (200, 7), (300, 9)]), &holder(&[100]), &mut flags);
    assert_eq!(
        asked,
        vec![
            Action::ReadFlags { user: USER },
            Action::RemoveFlag { user: USER, flag: 7 },
            Action::AppendFlag { user: USER, flag: 7 },
            Action::RemoveFlag { user: USER, flag: 9 },
            Action::Done,
        ]
    );
    assert_eq!(flags, vec![7]);
}

#[test]
fn flag_present_is_decided_too() {
    let mut flags = vec![7];
    let asked = replay(&handler(&[(100, 7), (200, 7)]), &holder(&[100]), &mut flags);
    assert_eq!(asked, vec![Action::ReadFlags { user: USER }, Action::Done]);
    assert_eq!(flags, vec![7]);
}

#[test]
fn flag_granted_by_a_later_role_is_put_back() {
    // The first carrier of flag 7 is not held, the second is.
    let mut flags = vec![7, 1];
    let asked = replay(&handler(&[(100, 7), (200, 7)]), &holder(&[200]), &mut flags);
    assert_eq!(
        asked,
        vec![
            Action::RemoveFlag { user: USER, flag: 7 },
            Action::ReadFlags { user: USER },
            Action::RemoveFlag { user: USER, flag: 7 },
            Action::AppendFlag { user: USER, flag: 7 },
            Action::Done,
        ]
    );
    assert_eq!(flags, vec![1, 7]);
}

#[test]
fn replaying_an_update_changes_nothing_more() {
    let handlers = [
        handler(&[(100, 7), (200, 8), (300, 9)]),
        handler(&[(100, 7), (200, 7), (300, 9), (400, 9)]),
        handler(&[(300, 9), (200, 7), (100, 7)]),
    ];
    let members = [holder(&[]), holder(&[100]), holder(&[200, 300]), holder(&[400, 100, 5])];
    let stores: [Vec<i32>; 4] = [vec![], vec![7], vec![1, 9, 9, 2], vec![8, 7, 9, 3]];
    for handler in &handlers {
        for member in &members {
            for store in &stores {
                let mut once = store.clone();
                replay(handler, member, &mut once);
                let mut twice = once.clone();
                replay(handler, member, &mut twice);
                assert_eq!(sorted_set(&once), sorted_set(&twice));
            }
        }
    }
}

#[test]
fn update_leaves_granted_flags_and_foreign_flags() {
    let mut flags = vec![9, 1, 8, 2];
    replay(&handler(&[(100, 7), (200, 8), (300, 9)]), &holder(&[100, 200]), &mut flags);
    // 7 and 8 are granted, 9 is carried but not granted, 1 and 2 are carried by nothing.
    assert_eq!(sorted_set(&flags), vec![1, 2, 7, 8]);
}

#[test]
fn present_flag_of_held_role_is_never_written() {
    let handler = handler(&[(300, 9), (100, 7), (200, 7), (400, 3)]);
    let mut flags = vec![7, 9];
    let asked = replay(&handler, &holder(&[100, 200]), &mut flags);
    for action in &asked {
        assert_ne!(*action, Action::RemoveFlag { user: USER, flag: 7 });
        assert_ne!(*action, Action::AppendFlag { user: USER, flag: 7 });
    }
    assert_eq!(asked.iter().filter(|a| matches!(a, Action::ReadFlags { .. })).count(), 1);
    assert_eq!(flags, vec![7]);
}

#[test]
fn failed_read_is_reported_and_the_attribute_skipped() {
    let asked = script(
        &handler(&[(100, 7), (200, 8)]),
        &holder(&[100]),
        vec![Outcome::Failed, Outcome::Succeeded, Outcome::Succeeded],
    );
    assert_eq!(
        asked,
        vec![
            Action::ReadFlags { user: USER },
            Action::Report { channel: CHANNEL },
            Action::RemoveFlag { user: USER, flag: 8 },
            Action::Done,
        ]
    );
}

#[test]
fn failed_read_leaves_the_flag_undecided() {
    // The read for the first carrier of flag 7 fails; the second carrier is dealt with.
    let asked = script(
        &handler(&[(100, 7), (200, 7)]),
        &holder(&[100, 200]),
        vec![Outcome::Failed, Outcome::Failed, Outcome::Flags(vec![7])],
    );
    assert_eq!(
        asked,
        vec![
            Action::ReadFlags { user: USER },
            Action::Report { channel: CHANNEL },
            Action::ReadFlags { user: USER },
            Action::Done,
        ]
    );
}

#[test]
fn failed_remove_is_reported_and_the_append_still_made() {
    let asked = script(
        &handler(&[(100, 7)]),
        &holder(&[100]),
        vec![Outcome::Flags(vec![]), Outcome::Failed, Outcome::Failed, Outcome::Succeeded],
    );
    assert_eq!(
        asked,
        vec![
            Action::ReadFlags { user: USER },
            Action::RemoveFlag { user: USER, flag: 7 },
            Action::Report { channel: CHANNEL },
            Action::AppendFlag { user: USER, flag: 7 },
            Action::Done,
        ]
    );
}

#[test]
fn failed_append_is_reported_and_the_scan_goes_on() {
    let asked = script(
        &handler(&[(100, 7), (200, 8)]),
        &holder(&[100]),
        vec![
            Outcome::Flags(vec![1]),
            Outcome::Succeeded,
            Outcome::Failed,
            Outcome::Failed,
            Outcome::Failed,
            Outcome::Succeeded,
        ],
    );
    assert_eq!(
        asked,
        vec![
            Action::ReadFlags { user: USER },
            Action::RemoveFlag { user: USER, flag: 7 },
            Action::AppendFlag { user: USER, flag: 7 },
            Action::Report { channel: CHANNEL },
            Action::RemoveFlag { user: USER, flag: 8 },
            Action::Report { channel: CHANNEL },
            Action::Done,
        ]
    );
}

#[test]
fn without_an_error_channel_failures_are_not_reported() {
    for channel in ["", "errors", "-1", "18446744073709551616"] {
        let asked = script(
            &handler_with(channel, &[(100, 7), (200, 8), (300, 9)]),
            &holder(&[100, 300]),
            vec![
                Outcome::Failed,
                Outcome::Failed,
                Outcome::Flags(vec![]),
                Outcome::Failed,
                Outcome::Failed,
            ],
        );
        assert_eq!(
            asked,
            vec![
                Action::ReadFlags { user: USER },
                Action::RemoveFlag { user: USER, flag: 8 },
                Action::ReadFlags { user: USER },
                Action::RemoveFlag { user: USER, flag: 9 },
                Action::AppendFlag { user: USER, flag: 9 },
                Action::Done,
            ],
            "{:?}",
            channel
        );
    }
}

#[test]
fn outcome_of_another_kind_counts_as_documented() {
    // A read answered without flags counts as failed.
    let asked = script(
        &handler(&[(100, 7)]),
        &holder(&[100]),
        vec![Outcome::Succeeded, Outcome::Succeeded],
    );
    assert_eq!(
        asked,
        vec![Action::ReadFlags { user: USER }, Action::Report { channel: CHANNEL }, Action::Done]
    );
    // A write answered with flags counts as done.
    let asked = script(
        &handler(&[(100, 7)]),
        &holder(&[]),
        vec![Outcome::Flags(vec![7])],
    );
    assert_eq!(asked, vec![Action::RemoveFlag { user: USER, flag: 7 }, Action::Done]);
}

#[test]
fn finished_update_stays_finished() {
    let handler = handler(&[(100, 7)]);
    let member = holder(&[]);
    let (state, _) = handler.guild_member_update(&member, FlagSync::new(), Outcome::Succeeded);
    let (state, action) = handler.guild_member_update(&member, state, Outcome::Succeeded);
    assert_eq!(action, Action::Done);
    assert!(state.finished());
    let (state, action) = handler.guild_member_update(&member, state, Outcome::Failed);
    assert_eq!(action, Action::Done);
    assert!(state.finished());
}

#[test]
fn state_records_decided_flags_and_position() {
    let handler = handler(&[(100, 7), (200, 8)]);
    let member = holder(&[100]);
    let (state, action) = handler.guild_member_update(&member, FlagSync::new(), Outcome::Succeeded);
    assert_eq!(action, Action::ReadFlags { user: USER });
    assert_eq!((state.next, state.pending), (1, Pending::Read(7)));
    assert!(state.decided.is_empty());
    let (state, action) = handler.guild_member_update(&member, state, Outcome::Flags(vec![]));
    assert_eq!(action, Action::RemoveFlag { user: USER, flag: 7 });
    assert_eq!((state.next, state.pending), (1, Pending::Removed(7)));
    assert_eq!(state.decided, vec![7]);
    let (state, action) = handler.guild_member_update(&member, state, Outcome::Succeeded);
    assert_eq!(action, Action::AppendFlag { user: USER, flag: 7 });
    assert_eq!((state.next, state.pending), (1, Pending::Written));
    let (state, action) = handler.guild_member_update(&member, state, Outcome::Succeeded);
    assert_eq!(action, Action::RemoveFlag { user: USER, flag: 8 });
    assert_eq!((state.next, state.pending), (2, Pending::Written));
    let (state, action) = handler.guild_member_update(&member, state, Outcome::Succeeded);
    assert_eq!(action, Action::Done);
    assert_eq!((state.next, state.pending), (2, Pending::Finished));
    assert_eq!(state.decided, vec![7]);
}

#[test]
fn store_key_is_the_id_in_twos_complement() {
    assert_eq!(user_key(0), 0);
    assert_eq!(user_key(563808552288780322), 563808552288780322);
    assert_eq!(user_key(i64::MAX as u64), i64::MAX);
    assert_eq!(user_key(1 << 63), i64::MIN);
    assert_eq!(user_key(u64::MAX), -1);
    for id in [1u64, 1 << 62, (1 << 63) + 5, u64::MAX - 7] {
        assert_eq!(user_key(id), id as i64);
    }
}

#[test]
fn large_user_id_is_handed_on_as_its_key() {
    let member = Member { user: u64::MAX, roles: vec![] };
    let (_, action) =
        handler(&[(100, 7)]).guild_member_update(&member, FlagSync::new(), Outcome::Succeeded);
    assert_eq!(action, Action::RemoveFlag { user: -1, flag: 7 });
}
