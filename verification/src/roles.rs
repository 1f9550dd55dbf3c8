//! The role attributes that the configuration binds to guild roles.

use vstd::prelude::*;

verus! {

/// A staff attribute: the authorization level that a guild role grants.
#[derive(Clone, Debug, PartialEq, Eq)]
pub struct StaffRole {
    /// The guild role bound to this attribute, in decimal.
    pub id: String,
    /// The role of the same rank in the staff guild, in decimal.
    pub staff_id: String,
    /// The authorization level. A larger level outranks a smaller one.
    pub perm: i32,
    /// The name shown for this attribute.
    pub fname: String,
}

/// A general attribute: the flag that a guild role grants, such as premium.
#[derive(Clone, Debug, PartialEq, Eq)]
pub struct NormalRole {
    /// The guild role bound to this attribute.
    pub id: u64,
    /// The flag kept for users who hold the role.
    pub flag: i32,
    /// The name shown for this attribute.
    pub fname: String,
}

/// A member of the main guild as a realtime session holds it.
#[derive(Clone, Debug, PartialEq, Eq)]
pub struct Member {
    /// The member's user id.
    pub user: u64,
    /// The guild roles the member holds.
    pub roles: Vec<u64>,
}

/// Whether `roles` holds `role`.
pub fn holds(roles: &Vec<u64>, role: u64) -> (r: bool)
    ensures
        r == roles@.contains(role),
{
    let mut i: usize = 0;
    while i < roles.len()
        invariant
            i <= roles.len(),
            forall|k: int| 0 <= k < i ==> roles@[k] != role,
        decreases roles.len() - i,
    {
        if roles[i] == role {
            return true;
        }
        i = i + 1;
    }
    false
}

/// Whether `flags` holds `flag`.
pub fn has_flag(flags: &Vec<i32>, flag: i32) -> (r: bool)
    ensures
        r == flags@.contains(flag),
{
    let mut i: usize = 0;
    while i < flags.len()
        invariant
            i <= flags.len(),
            forall|k: int| 0 <= k < i ==> flags@[k] != flag,
        decreases flags.len() - i,
    {
        if flags[i] == flag {
            return true;
        }
        i = i + 1;
    }
    false
}

} // verus!
