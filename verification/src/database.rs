//! The attribute directory: the staff and general attributes of the
//! configuration, checked once and read-only from then on.

use crate::config::{Channels, Discord, Servers};
use crate::decimal::{parse_u64, parsed};
use crate::flags::MainHandler;
use crate::index::{distinct, is_choice, lemma_position_of, position_of, RoleIndex};
use crate::roles::{Member, NormalRole, StaffRole};
use vstd::prelude::*;
use vstd::string::*;

verus! {

/// One of the two attribute collections.
#[derive(Clone, Copy, Debug, PartialEq, Eq, Structural)]
pub enum Collection {
    Staff,
    General,
}

/// What is wrong with an attribute collection.
#[derive(Clone, Copy, Debug, PartialEq, Eq, Structural)]
pub enum Fault {
    /// The role id of an attribute is no unsigned decimal number of 64 bits.
    MalformedRoleId,
    /// Two attributes have the same key.
    DuplicateKey,
    /// No attribute has the key `user`.
    MissingDefault,
    /// Two attributes are bound to the same role.
    DuplicateRole,
}

/// Why a configuration is refused.
#[derive(Clone, Copy, Debug, PartialEq, Eq, Structural)]
pub struct ConfigError {
    pub collection: Collection,
    pub fault: Fault,
}

/// Whether no key occurs twice.
pub open spec fn keys_distinct<T>(entries: Seq<(String, T)>) -> bool {
    forall|i: int, j: int| 0 <= i < j < entries.len() ==> entries[i].0@ != entries[j].0@
}

/// Whether some entry has the key `key`.
pub open spec fn has_key<T>(entries: Seq<(String, T)>, key: Seq<char>) -> bool {
    exists|i: int| 0 <= i < entries.len() && (#[trigger] entries[i]).0@ == key
}

/// The position of the entry with the key `key`.
pub open spec fn key_position<T>(entries: Seq<(String, T)>, key: Seq<char>) -> int {
    choose|i: int| 0 <= i < entries.len() && (#[trigger] entries[i]).0@ == key
}

/// The key of the default attribute of a collection.
pub open spec fn default_key() -> Seq<char> {
    "user"@
}

/// The role that each staff attribute is bound to.
pub open spec fn staff_ids(staff: Seq<(String, StaffRole)>) -> Seq<u64> {
    Seq::new(staff.len(), |i: int| parsed(staff[i].1.id@).unwrap())
}

/// The authorization level of each staff attribute.
pub open spec fn staff_ranks(staff: Seq<(String, StaffRole)>) -> Seq<i32> {
    Seq::new(staff.len(), |i: int| staff[i].1.perm)
}

/// The role that each general attribute is bound to.
pub open spec fn normal_ids(normal: Seq<(String, NormalRole)>) -> Seq<u64> {
    Seq::new(normal.len(), |i: int| normal[i].1.id)
}

/// The flag of each general attribute.
pub open spec fn normal_ranks(normal: Seq<(String, NormalRole)>) -> Seq<i32> {
    Seq::new(normal.len(), |i: int| normal[i].1.flag)
}

/// Whether the role id of some staff attribute cannot be read.
pub open spec fn has_malformed_id(staff: Seq<(String, StaffRole)>) -> bool {
    exists|i: int| 0 <= i < staff.len() && parsed((#[trigger] staff[i]).1.id@) is None
}

/// The first thing wrong with the staff attributes, if anything is.
pub open spec fn staff_fault(staff: Seq<(String, StaffRole)>) -> Option<Fault> {
    if has_malformed_id(staff) {
        Some(Fault::MalformedRoleId)
    } else if !keys_distinct(staff) {
        Some(Fault::DuplicateKey)
    } else if !has_key(staff, default_key()) {
        Some(Fault::MissingDefault)
    } else if !distinct(staff_ids(staff)) {
        Some(Fault::DuplicateRole)
    } else {
        None
    }
}

/// The first thing wrong with the general attributes, if anything is.
pub open spec fn normal_fault(normal: Seq<(String, NormalRole)>) -> Option<Fault> {
    if !keys_distinct(normal) {
        Some(Fault::DuplicateKey)
    } else if !has_key(normal, default_key()) {
        Some(Fault::MissingDefault)
    } else if !distinct(normal_ids(normal)) {
        Some(Fault::DuplicateRole)
    } else {
        None
    }
}

/// Why a configuration is refused, if it is. The staff attributes are
/// looked at first.
pub open spec fn config_fault(
    staff: Seq<(String, StaffRole)>,
    normal: Seq<(String, NormalRole)>,
) -> Option<ConfigError> {
    match staff_fault(staff) {
        Some(fault) => Some(ConfigError { collection: Collection::Staff, fault }),
        None => match normal_fault(normal) {
            Some(fault) => Some(ConfigError { collection: Collection::General, fault }),
            None => None,
        },
    }
}

/// The staff attribute bound to `role`, if there is one.
pub open spec fn staff_bound_to(staff: Seq<(String, StaffRole)>, role: u64) -> Option<StaffRole> {
    match position_of(staff_ids(staff), role) {
        Some(i) => Some(staff[i].1),
        None => None,
    }
}

/// The general attribute bound to `role`, if there is one.
pub open spec fn normal_bound_to(normal: Seq<(String, NormalRole)>, role: u64) -> Option<
    NormalRole,
> {
    match position_of(normal_ids(normal), role) {
        Some(i) => Some(normal[i].1),
        None => None,
    }
}

/// The roles that count as held: those of the member, and none where the
/// session holds no such member.
pub open spec fn held_by(member: Option<&Member>) -> Seq<u64> {
    match member {
        Some(m) => m.roles@,
        None => Seq::empty(),
    }
}

/// Among distinct keys each key has one position.
pub proof fn lemma_key_position<T>(entries: Seq<(String, T)>, i: int)
    requires
        keys_distinct(entries),
        0 <= i < entries.len(),
    ensures
        key_position(entries, entries[i].0@) == i,
{
    let j = key_position(entries, entries[i].0@);
    assert(entries[i].0@ == entries[i].0@);
    if j < i {
        assert(entries[j].0@ != entries[i].0@);
    } else if i < j {
        assert(entries[i].0@ != entries[j].0@);
    }
}

/// Every staff attribute of a sound collection is found under the role it
/// is bound to.
pub proof fn law_staff_found_by_role(staff: Seq<(String, StaffRole)>, i: int)
    requires
        staff_fault(staff) is None,
        0 <= i < staff.len(),
    ensures
        staff_bound_to(staff, staff_ids(staff)[i]) == Some(staff[i].1),
{
    lemma_position_of(staff_ids(staff), i);
}

/// Every general attribute of a sound collection is found under the role it
/// is bound to.
pub proof fn law_normal_found_by_role(normal: Seq<(String, NormalRole)>, i: int)
    requires
        normal_fault(normal) is None,
        0 <= i < normal.len(),
    ensures
        normal_bound_to(normal, normal[i].1.id) == Some(normal[i].1),
{
    lemma_position_of(normal_ids(normal), i);
}

/// A configuration that binds two attributes of one collection to the same
/// role is refused, whatever else holds of it.
pub proof fn law_duplicate_role_is_refused(
    staff: Seq<(String, StaffRole)>,
    normal: Seq<(String, NormalRole)>,
    i: int,
    j: int,
)
    requires
        0 <= i < j,
        (j < staff.len() && parsed(staff[i].1.id@) == parsed(staff[j].1.id@)) || (j < normal.len()
            && normal[i].1.id == normal[j].1.id),
    ensures
        config_fault(staff, normal) is Some,
{
    if j < staff.len() && parsed(staff[i].1.id@) == parsed(staff[j].1.id@) {
        if parsed(staff[i].1.id@) is Some {
            assert(staff_ids(staff)[i] == staff_ids(staff)[j]);
        }
    } else {
        assert(normal_ids(normal)[i] == normal_ids(normal)[j]);
    }
}

/// Whether no key occurs twice.
fn distinct_keys<T>(entries: &Vec<(String, T)>) -> (r: bool)
    ensures
        r == keys_distinct(entries@),
{
    let mut j: usize = 0;
    while j < entries.len()
        invariant
            j <= entries.len(),
            forall|a: int, b: int| 0 <= a < b < j ==> entries@[a].0@ != entries@[b].0@,
        decreases entries.len() - j,
    {
        let mut i: usize = 0;
        while i < j
            invariant
                i <= j < entries.len(),
                forall|a: int| 0 <= a < i ==> entries@[a].0@ != entries@[j as int].0@,
            decreases j - i,
        {
            if entries[i].0 == entries[j].0 {
                return false;
            }
            i = i + 1;
        }
        j = j + 1;
    }
    true
}

/// The position of the entry with the key `key`.
fn find_key<T>(entries: &Vec<(String, T)>, key: &String) -> (r: Option<usize>)
    ensures
        match r {
            Some(i) => i < entries.len() && entries@[i as int].0@ == key@,
            None => !has_key(entries@, key@),
        },
{
    let mut i: usize = 0;
    while i < entries.len()
        invariant
            i <= entries.len(),
            forall|a: int| 0 <= a < i ==> entries@[a].0@ != key@,
        decreases entries.len() - i,
    {
        if entries[i].0 == *key {
            return Some(i);
        }
        i = i + 1;
    }
    None
}

/// Reads the role id of each staff attribute.
fn read_staff_ids(staff: &Vec<(String, StaffRole)>) -> (r: Option<Vec<u64>>)
    ensures
        r is None <==> has_malformed_id(staff@),
        r matches Some(ids) ==> ids@ == staff_ids(staff@),
{
    let mut ids: Vec<u64> = Vec::new();
    let mut i: usize = 0;
    while i < staff.len()
        invariant
            i <= staff.len(),
            ids.len() == i,
            forall|a: int| 0 <= a < i ==> parsed(staff@[a].1.id@) == Some(#[trigger] ids@[a]),
        decreases staff.len() - i,
    {
        match parse_u64(staff[i].1.id.as_str()) {
            Some(id) => ids.push(id),
            None => {
                assert(parsed(staff@[i as int].1.id@) is None);
                return None;
            },
        }
        i = i + 1;
    }
    assert(ids@ =~= staff_ids(staff@));
    assert forall|a: int| 0 <= a < staff.len() implies parsed((#[trigger] staff@[a]).1.id@)
        is Some by {
        assert(parsed(staff@[a].1.id@) == Some(ids@[a]));
    }
    Some(ids)
}

/// The authorization level of each staff attribute.
fn staff_levels(staff: &Vec<(String, StaffRole)>) -> (r: Vec<i32>)
    ensures
        r@ == staff_ranks(staff@),
{
    let mut ranks: Vec<i32> = Vec::new();
    let mut i: usize = 0;
    while i < staff.len()
        invariant
            i <= staff.len(),
            ranks.len() == i,
            forall|a: int| 0 <= a < i ==> ranks@[a] == staff@[a].1.perm,
        decreases staff.len() - i,
    {
        ranks.push(staff[i].1.perm);
        i = i + 1;
    }
    assert(ranks@ =~= staff_ranks(staff@));
    ranks
}

/// The role and the flag of each general attribute.
fn normal_columns(normal: &Vec<(String, NormalRole)>) -> (r: (Vec<u64>, Vec<i32>))
    ensures
        r.0@ == normal_ids(normal@),
        r.1@ == normal_ranks(normal@),
{
    let mut ids: Vec<u64> = Vec::new();
    let mut ranks: Vec<i32> = Vec::new();
    let mut i: usize = 0;
    while i < normal.len()
        invariant
            i <= normal.len(),
            ids.len() == i,
            ranks.len() == i,
            forall|a: int| 0 <= a < i ==> ids@[a] == normal@[a].1.id,
            forall|a: int| 0 <= a < i ==> ranks@[a] == normal@[a].1.flag,
        decreases normal.len() - i,
    {
        ids.push(normal[i].1.id);
        ranks.push(normal[i].1.flag);
        i = i + 1;
    }
    assert(ids@ =~= normal_ids(normal@));
    assert(ranks@ =~= normal_ranks(normal@));
    (ids, ranks)
}

/// Checks the staff attributes and builds their index.
fn index_staff(staff: &Vec<(String, StaffRole)>) -> (r: Result<RoleIndex, Fault>)
    ensures
        match r {
            Ok(index) => {
                &&& staff_fault(staff@) is None
                &&& index.roles() == staff_ids(staff@)
                &&& index.ranks() == staff_ranks(staff@)
                &&& index.default() == key_position(staff@, default_key())
            },
            Err(fault) => staff_fault(staff@) == Some(fault),
        },
{
    let ids = match read_staff_ids(staff) {
        Some(ids) => ids,
        None => {
            return Err(Fault::MalformedRoleId);
        },
    };
    if !distinct_keys(staff) {
        return Err(Fault::DuplicateKey);
    }
    let key = String::from_str("user");
    let default = match find_key(staff, &key) {
        Some(i) => i,
        None => {
            return Err(Fault::MissingDefault);
        },
    };
    proof {
        lemma_key_position(staff@, default as int);
    }
    match RoleIndex::build(ids, staff_levels(staff), default) {
        Some(index) => Ok(index),
        None => Err(Fault::DuplicateRole),
    }
}

/// Checks the general attributes and builds their index.
fn index_normal(normal: &Vec<(String, NormalRole)>) -> (r: Result<RoleIndex, Fault>)
    ensures
        match r {
            Ok(index) => {
                &&& normal_fault(normal@) is None
                &&& index.roles() == normal_ids(normal@)
                &&& index.ranks() == normal_ranks(normal@)
                &&& index.default() == key_position(normal@, default_key())
            },
            Err(fault) => normal_fault(normal@) == Some(fault),
        },
{
    if !distinct_keys(normal) {
        return Err(Fault::DuplicateKey);
    }
    let key = String::from_str("user");
    let default = match find_key(normal, &key) {
        Some(i) => i,
        None => {
            return Err(Fault::MissingDefault);
        },
    };
    proof {
        lemma_key_position(normal@, default as int);
    }
    let (ids, ranks) = normal_columns(normal);
    match RoleIndex::build(ids, ranks, default) {
        Some(index) => Ok(index),
        None => Err(Fault::DuplicateRole),
    }
}

/// Copies the general attributes.
fn copy_normal(normal: &Vec<(String, NormalRole)>) -> (r: Vec<(String, NormalRole)>)
    ensures
        r@ == normal@,
{
    let mut copy: Vec<(String, NormalRole)> = Vec::new();
    let mut i: usize = 0;
    while i < normal.len()
        invariant
            i <= normal.len(),
            copy.len() == i,
            forall|a: int| 0 <= a < i ==> copy@[a] == normal@[a],
        decreases normal.len() - i,
    {
        let role = &normal[i].1;
        copy.push(
            (normal[i].0.clone(), NormalRole { id: role.id, flag: role.flag, fname: role.fname.clone() }),
        );
        i = i + 1;
    }
    assert(copy@ =~= normal@);
    copy
}

/// The attribute directory with the settings of the service.
pub struct Database {
    staff_roles: Vec<(String, StaffRole)>,
    normal_roles: Vec<(String, NormalRole)>,
    staff_roles_cache: RoleIndex,
    normal_roles_cache: RoleIndex,
    discord: Discord,
}

impl Database {
    #[verifier::type_invariant]
    spec fn inv(self) -> bool {
        &&& config_fault(self.staff_roles@, self.normal_roles@) is None
        &&& self.staff_roles_cache.roles() == staff_ids(self.staff_roles@)
        &&& self.staff_roles_cache.ranks() == staff_ranks(self.staff_roles@)
        &&& self.staff_roles_cache.default() == key_position(self.staff_roles@, default_key())
        &&& self.normal_roles_cache.roles() == normal_ids(self.normal_roles@)
        &&& self.normal_roles_cache.ranks() == normal_ranks(self.normal_roles@)
        &&& self.normal_roles_cache.default() == key_position(self.normal_roles@, default_key())
    }

    /// The staff attributes with their keys.
    pub closed spec fn staff(self) -> Seq<(String, StaffRole)> {
        self.staff_roles@
    }

    /// The general attributes with their keys.
    pub closed spec fn normal(self) -> Seq<(String, NormalRole)> {
        self.normal_roles@
    }

    /// The settings of the service.
    pub closed spec fn settings(self) -> Discord {
        self.discord
    }

    /// Checks the two attribute collections and builds the directory.
    ///
    /// A configuration is refused where the role id of a staff attribute
    /// cannot be read, and where a collection has a key twice, lacks the
    /// default attribute `user`, or binds two attributes to one role.
    pub fn new(
        staff_roles: Vec<(String, StaffRole)>,
        normal_roles: Vec<(String, NormalRole)>,
        discord: Discord,
    ) -> (r: Result<Database, ConfigError>)
        ensures
            match r {
                Ok(db) => {
                    &&& config_fault(staff_roles@, normal_roles@) is None
                    &&& db.staff() == staff_roles@
                    &&& db.normal() == normal_roles@
                    &&& db.settings() == discord
                },
                Err(e) => config_fault(staff_roles@, normal_roles@) == Some(e),
            },
    {
        let staff_roles_cache = match index_staff(&staff_roles) {
            Ok(index) => index,
            Err(fault) => {
                return Err(ConfigError { collection: Collection::Staff, fault });
            },
        };
        let normal_roles_cache = match index_normal(&normal_roles) {
            Ok(index) => index,
            Err(fault) => {
                return Err(ConfigError { collection: Collection::General, fault });
            },
        };
        Ok(Database { staff_roles, normal_roles, staff_roles_cache, normal_roles_cache, discord })
    }

    /// The staff attributes with their keys.
    pub fn staff_roles(&self) -> (r: &Vec<(String, StaffRole)>)
        ensures
            r@ == self.staff(),
            staff_fault(r@) is None,
    {
        proof {
            use_type_invariant(self);
        }
        &self.staff_roles
    }

    /// The general attributes with their keys.
    pub fn normal_roles(&self) -> (r: &Vec<(String, NormalRole)>)
        ensures
            r@ == self.normal(),
            normal_fault(r@) is None,
    {
        proof {
            use_type_invariant(self);
        }
        &self.normal_roles
    }

    /// The settings of the service.
    pub fn discord(&self) -> (r: &Discord)
        ensures
            *r == self.settings(),
    {
        &self.discord
    }

    /// A handler for changes of members' roles that works with the general
    /// attributes and the settings of this directory.
    pub fn handler(&self) -> (r: MainHandler)
        ensures
            r.normal_roles@ == self.normal(),
            r.discord == self.settings(),
    {
        let discord = Discord {
            servers: Servers { main: self.discord.servers.main },
            channels: Channels {
                site_errors_channel: self.discord.channels.site_errors_channel.clone(),
            },
        };
        MainHandler::new(copy_normal(&self.normal_roles), discord)
    }

    /// The staff attribute bound to `role`.
    pub fn lookup_staff_by_role(&self, role: u64) -> (r: Option<&StaffRole>)
        ensures
            staff_fault(self.staff()) is None,
            match r {
                Some(found) => staff_bound_to(self.staff(), role) == Some(*found),
                None => staff_bound_to(self.staff(), role) is None,
            },
    {
        proof {
            use_type_invariant(self);
        }
        match self.staff_roles_cache.position(role) {
            Some(i) => Some(&self.staff_roles[i].1),
            None => None,
        }
    }

    /// The general attribute bound to `role`.
    pub fn lookup_general_by_role(&self, role: u64) -> (r: Option<&NormalRole>)
        ensures
            normal_fault(self.normal()) is None,
            match r {
                Some(found) => normal_bound_to(self.normal(), role) == Some(*found),
                None => normal_bound_to(self.normal(), role) is None,
            },
    {
        proof {
            use_type_invariant(self);
        }
        match self.normal_roles_cache.position(role) {
            Some(i) => Some(&self.normal_roles[i].1),
            None => None,
        }
    }

    /// The default staff attribute: the one with the key `user`.
    pub fn default_staff(&self) -> (r: &StaffRole)
        ensures
            staff_fault(self.staff()) is None,
            *r == self.staff()[key_position(self.staff(), default_key())].1,
    {
        proof {
            use_type_invariant(self);
        }
        &self.staff_roles[self.staff_roles_cache.default_position()].1
    }

    /// The default general attribute: the one with the key `user`.
    pub fn default_general(&self) -> (r: &NormalRole)
        ensures
            normal_fault(self.normal()) is None,
            *r == self.normal()[key_position(self.normal(), default_key())].1,
    {
        proof {
            use_type_invariant(self);
        }
        &self.normal_roles[self.normal_roles_cache.default_position()].1
    }

    /// Whether `role` is the staff attribute of a member whose roles are
    /// `held`.
    pub open spec fn grants_staff(self, held: Seq<u64>, role: StaffRole) -> bool {
        exists|i: int|
            is_choice(
                staff_ids(self.staff()),
                staff_ranks(self.staff()),
                key_position(self.staff(), default_key()),
                held,
                i,
            ) && #[trigger] self.staff()[i].1 == role
    }

    /// Whether `role` is the general attribute of a member whose roles are
    /// `held`.
    pub open spec fn grants_general(self, held: Seq<u64>, role: NormalRole) -> bool {
        exists|i: int|
            is_choice(
                normal_ids(self.normal()),
                normal_ranks(self.normal()),
                key_position(self.normal(), default_key()),
                held,
                i,
            ) && #[trigger] self.normal()[i].1 == role
    }

    /// The staff attribute of a user, from the member that the main session
    /// holds for the user in the main guild, if it holds one.
    ///
    /// The attribute is the default, unless a held role is bound to a staff
    /// attribute of greater level: then it is the one of greatest level, and
    /// of several such the one whose role the member holds first.
    pub fn get_user_perms(&self, member: Option<&Member>) -> (r: &StaffRole)
        ensures
            staff_fault(self.staff()) is None,
            self.grants_staff(held_by(member), *r),
            member is None ==> *r == self.staff()[key_position(self.staff(), default_key())].1,
    {
        proof {
            use_type_invariant(self);
        }
        match member {
            Some(m) => {
                let i = self.staff_roles_cache.select(&m.roles);
                assert(self.staff()[i as int].1 == self.staff_roles[i as int].1);
                &self.staff_roles[i].1
            },
            None => {
                let i = self.staff_roles_cache.default_position();
                assert(is_choice(
                    staff_ids(self.staff()),
                    staff_ranks(self.staff()),
                    key_position(self.staff(), default_key()),
                    Seq::empty(),
                    i as int,
                ));
                assert(self.staff()[i as int].1 == self.staff_roles[i as int].1);
                &self.staff_roles[i].1
            },
        }
    }

    /// The general attribute of a user, chosen by flag as
    /// [`Database::get_user_perms`] chooses by level.
    pub fn get_normal_roles(&self, member: Option<&Member>) -> (r: &NormalRole)
        ensures
            normal_fault(self.normal()) is None,
            self.grants_general(held_by(member), *r),
            member is None ==> *r == self.normal()[key_position(self.normal(), default_key())].1,
    {
        proof {
            use_type_invariant(self);
        }
        match member {
            Some(m) => {
                let i = self.normal_roles_cache.select(&m.roles);
                assert(self.normal()[i as int].1 == self.normal_roles[i as int].1);
                &self.normal_roles[i].1
            },
            None => {
                let i = self.normal_roles_cache.default_position();
                assert(is_choice(
                    normal_ids(self.normal()),
                    normal_ranks(self.normal()),
                    key_position(self.normal(), default_key()),
                    Seq::empty(),
                    i as int,
                ));
                assert(self.normal()[i as int].1 == self.normal_roles[i as int].1);
                &self.normal_roles[i].1
            },
        }
    }
}

} // verus!
