use baypaw::{Channels, Database, Discord, Member, NormalRole, RoleIndex, Servers, StaffRole};

fn blank_settings() -> Discord {
    Discord {
        servers: Servers { main: 1 },
        channels: Channels { site_errors_channel: String::new() },
    }
}

fn staff_entry(key: &str, id: u64, perm: i32) -> (String, StaffRole) {
    (
        key.to_string(),
        StaffRole { id: id.to_string(), staff_id: String::new(), perm, fname: key.to_uppercase() },
    )
}

fn general_entry(key: &str, id: u64, flag: i32) -> (String, NormalRole) {
    (key.to_string(), NormalRole { id, flag, fname: key.to_uppercase() })
}

fn directory(staff: Vec<(String, StaffRole)>) -> Database {
    Database::new(staff, vec![general_entry("user", 1, 0)], blank_settings()).unwrap()
}

fn member(roles: &[u64]) -> Member {
    Member { user: 42, roles: roles.to_vec() }
}

fn three_levels() -> Database {
    directory(vec![
        staff_entry("user", 1, 0),
        staff_entry("two", 20, 2),
        staff_entry("five", 50, 5),
        staff_entry("three", 30, 3),
    ])
}

#[test]
fn user_without_membership_gets_the_default() {
    let db = three_levels();
    assert_eq!(db.get_user_perms(None), db.default_staff());
    assert_eq!(db.get_user_perms(None).fname, "USER");
    assert_eq!(db.get_normal_roles(None), db.default_general());
}

#[test]
fn member_without_roles_gets_the_default() {
    let db = three_levels();
    assert_eq!(db.get_user_perms(Some(&member(&[]))).fname, "USER");
}

#[test]
fn member_with_unbound_roles_gets_the_default() {
    let db = three_levels();
    assert_eq!(db.get_user_perms(Some(&member(&[7, 8, 9]))).fname, "USER");
}

#[test]
fn highest_level_wins_in_every_order() {
    let db = three_levels();
    let orders: [[u64; 3]; 6] = [
        [20, 50, 30],
        [20, 30, 50],
        [50, 20, 30],
        [50, 30, 20],
        [30, 20, 50],
        [30, 50, 20],
    ];
    for order in orders {
        let chosen = db.get_user_perms(Some(&member(&order)));
        assert_eq!(chosen.perm, 5, "{:?}", order);
        assert_eq!(chosen.fname, "FIVE", "{:?}", order);
    }
}

#[test]
fn repeated_and_unbound_roles_change_nothing() {
    let db = three_levels();
    let chosen = db.get_user_perms(Some(&member(&[30, 999, 30, 20, 20, 50, 50, 4])));
    assert_eq!(chosen.fname, "FIVE");
}

#[test]
fn tie_at_the_top_gives_one_of_the_tied() {
    let db = directory(vec![
        staff_entry("user", 1, 0),
        staff_entry("left", 10, 5),
        staff_entry("right", 11, 5),
        staff_entry("low", 12, 2),
    ]);
    for order in [[10u64, 11, 12], [11, 10, 12], [12, 11, 10], [12, 10, 11]] {
        let chosen = db.get_user_perms(Some(&member(&order)));
        assert_eq!(chosen.perm, 5);
        assert!(chosen.fname == "LEFT" || chosen.fname == "RIGHT");
    }
}

#[test]
fn tie_is_broken_by_the_role_held_first() {
    let db = directory(vec![
        staff_entry("user", 1, 0),
        staff_entry("left", 10, 5),
        staff_entry("right", 11, 5),
    ]);
    assert_eq!(db.get_user_perms(Some(&member(&[10, 11]))).fname, "LEFT");
    assert_eq!(db.get_user_perms(Some(&member(&[11, 10]))).fname, "RIGHT");
    assert_eq!(db.get_user_perms(Some(&member(&[11, 10, 11]))).fname, "RIGHT");
}

#[test]
fn tie_with_the_default_keeps_the_default() {
    let db = directory(vec![
        staff_entry("user", 1, 3),
        staff_entry("same", 10, 3),
        staff_entry("less", 11, -4),
    ]);
    assert_eq!(db.get_user_perms(Some(&member(&[10, 11]))).fname, "USER");
}

#[test]
fn holding_the_default_role_changes_nothing() {
    let db = directory(vec![staff_entry("user", 1, 0), staff_entry("mod", 100, 1)]);
    assert_eq!(db.get_user_perms(Some(&member(&[1]))).fname, "USER");
    assert_eq!(db.get_user_perms(Some(&member(&[1, 100]))).fname, "MOD");
}

#[test]
fn negative_levels_rank_below_the_default() {
    let db = directory(vec![staff_entry("user", 1, 0), staff_entry("banned", 66, -1)]);
    assert_eq!(db.get_user_perms(Some(&member(&[66]))).fname, "USER");
}

#[test]
fn staff_scenario_user_mod_admin() {
    let db = directory(vec![
        staff_entry("user", 1, 0),
        staff_entry("mod", 100, 1),
        staff_entry("admin", 200, 2),
    ]);
    assert_eq!(db.get_user_perms(Some(&member(&[100]))).fname, "MOD");
    assert_eq!(db.get_user_perms(Some(&member(&[100, 200]))).fname, "ADMIN");
    assert_eq!(db.get_user_perms(Some(&member(&[200, 100]))).fname, "ADMIN");
    assert_eq!(db.get_user_perms(Some(&member(&[]))).fname, "USER");
    assert_eq!(db.get_user_perms(Some(&member(&[300]))).fname, "USER");
    assert_eq!(db.get_user_perms(None).fname, "USER");
}

#[test]
fn general_attribute_is_chosen_by_flag() {
    let db = Database::new(
        vec![staff_entry("user", 1, 0)],
        vec![
            general_entry("user", 1, 0),
            general_entry("premium", 20, 7),
            general_entry("partner", 30, 9),
        ],
        blank_settings(),
    )
    .unwrap();
    assert_eq!(db.get_normal_roles(Some(&member(&[20]))).fname, "PREMIUM");
    assert_eq!(db.get_normal_roles(Some(&member(&[20, 30]))).fname, "PARTNER");
    assert_eq!(db.get_normal_roles(Some(&member(&[30, 20]))).flag, 9);
    assert_eq!(db.get_normal_roles(Some(&member(&[5]))).fname, "USER");
    // Role 20 is bound to a general attribute only.
    assert_eq!(db.get_user_perms(Some(&member(&[20, 30]))).fname, "USER");
}

#[test]
fn index_is_built_from_distinct_roles_only() {
    assert!(RoleIndex::build(vec![1, 2, 3], vec![0, 5, 5], 0).is_some());
    assert!(RoleIndex::build(vec![1, 2, 1], vec![0, 5, 5], 0).is_none());
    assert!(RoleIndex::build(vec![1, 2], vec![0, 5, 5], 0).is_none());
    assert!(RoleIndex::build(vec![1, 2, 3], vec![0, 5, 5], 3).is_none());
    assert!(RoleIndex::build(vec![], vec![], 0).is_none());
}

#[test]
fn index_finds_positions_and_selects() {
    let index = RoleIndex::build(vec![10, 20, 30, 40], vec![0, 2, 5, 3], 0).unwrap();
    assert_eq!(index.position(10), Some(0));
    assert_eq!(index.position(40), Some(3));
    assert_eq!(index.position(50), None);
    assert_eq!(index.default_position(), 0);
    assert_eq!(index.select(&vec![]), 0);
    assert_eq!(index.select(&vec![20, 30, 40]), 2);
    assert_eq!(index.select(&vec![40, 20]), 3);
    assert_eq!(index.select(&vec![99]), 0);
}

#[test]
fn index_default_may_stand_anywhere() {
    let index = RoleIndex::build(vec![10, 20, 30], vec![4, 1, 4], 2).unwrap();
    assert_eq!(index.default_position(), 2);
    assert_eq!(index.select(&vec![10, 20]), 2);
    let index = RoleIndex::build(vec![10, 20, 30], vec![4, 1, 3], 2).unwrap();
    assert_eq!(index.select(&vec![20, 10]), 0);
}
