//! The index of one attribute collection: from a guild role to the attribute
//! bound to it, and the choice of the highest ranked attribute among the
//! roles a member holds.

use std::collections::HashMap;
use vstd::prelude::*;

verus! {

/// Whether no role occurs twice.
pub open spec fn distinct(roles: Seq<u64>) -> bool {
    forall|i: int, j: int| 0 <= i < j < roles.len() ==> roles[i] != roles[j]
}

/// The position of the attribute bound to `role`, if there is one.
pub open spec fn position_of(roles: Seq<u64>, role: u64) -> Option<int> {
    if roles.contains(role) {
        Some(roles.index_of(role))
    } else {
        None
    }
}

/// Whether the attribute at `i` may be chosen for a member who holds `held`:
/// it is the default, or its role is held.
pub open spec fn eligible(roles: Seq<u64>, default: int, held: Seq<u64>, i: int) -> bool {
    0 <= i < roles.len() && (i == default || held.contains(roles[i]))
}

/// Whether the attribute at `chosen` is the choice for a member who holds
/// `held`: among the eligible attributes it has the greatest rank, and among
/// those of that rank it comes first, the default before any other and the
/// others in the order in which their roles are held.
pub open spec fn is_choice(
    roles: Seq<u64>,
    ranks: Seq<i32>,
    default: int,
    held: Seq<u64>,
    chosen: int,
) -> bool {
    &&& eligible(roles, default, held, chosen)
    &&& forall|i: int| #[trigger] eligible(roles, default, held, i) ==> ranks[i] <= ranks[chosen]
    &&& forall|i: int| #[trigger]
        eligible(roles, default, held, i) && ranks[i] == ranks[chosen] && i != chosen ==> {
            ||| chosen == default
            ||| i != default && exists|k: int|
                0 <= k < held.len() && #[trigger] held[k] == roles[chosen] && forall|m: int|
                    0 <= m <= k ==> #[trigger] held[m] != roles[i]
        }
}

/// Whether the three sequences describe a collection: one rank for each
/// role, no role twice, and a default among them.
pub open spec fn well_formed(roles: Seq<u64>, ranks: Seq<i32>, default: int) -> bool {
    &&& roles.len() == ranks.len()
    &&& 0 <= default < roles.len()
    &&& distinct(roles)
}

/// Among distinct roles each role has one position.
pub proof fn lemma_position_of(roles: Seq<u64>, i: int)
    requires
        distinct(roles),
        0 <= i < roles.len(),
    ensures
        position_of(roles, roles[i]) == Some(i),
{
    assert(roles.contains(roles[i]));
}

/// The choice is unique.
pub proof fn law_choice_is_unique(
    roles: Seq<u64>,
    ranks: Seq<i32>,
    default: int,
    held: Seq<u64>,
    a: int,
    b: int,
)
    requires
        well_formed(roles, ranks, default),
        is_choice(roles, ranks, default, held, a),
        is_choice(roles, ranks, default, held, b),
    ensures
        a == b,
{
    if a != b {
        assert(eligible(roles, default, held, a));
        assert(eligible(roles, default, held, b));
        assert(ranks[a] == ranks[b]);
        assert(a != default && b != default);
        let k = choose|k: int|
            0 <= k < held.len() && #[trigger] held[k] == roles[a] && forall|m: int|
                0 <= m <= k ==> #[trigger] held[m] != roles[b];
        let l = choose|l: int|
            0 <= l < held.len() && #[trigger] held[l] == roles[b] && forall|m: int|
                0 <= m <= l ==> #[trigger] held[m] != roles[a];
        if k <= l {
            assert(held[k] != roles[a]);
        } else {
            assert(held[l] != roles[b]);
        }
    }
}

/// A member who holds no role is given the default.
pub proof fn law_no_roles_choose_default(roles: Seq<u64>, ranks: Seq<i32>, default: int, chosen: int)
    requires
        is_choice(roles, ranks, default, Seq::empty(), chosen),
    ensures
        chosen == default,
{
}

/// The rank of the choice does not depend on the order in which the roles
/// are held, nor on how often a role is listed; and where one eligible
/// attribute alone has the greatest rank, neither does the choice.
pub proof fn law_choice_ignores_order(
    roles: Seq<u64>,
    ranks: Seq<i32>,
    default: int,
    one: Seq<u64>,
    other: Seq<u64>,
    a: int,
    b: int,
)
    requires
        one.to_set() == other.to_set(),
        is_choice(roles, ranks, default, one, a),
        is_choice(roles, ranks, default, other, b),
    ensures
        ranks[a] == ranks[b],
        (forall|i: int| #[trigger] eligible(roles, default, one, i) && ranks[i] == ranks[a] ==> i == a)
            ==> a == b,
{
    assert forall|i: int| eligible(roles, default, one, i) == eligible(roles, default, other, i) by {
        if 0 <= i < roles.len() {
            assert(one.contains(roles[i]) == one.to_set().contains(roles[i]));
            assert(other.contains(roles[i]) == other.to_set().contains(roles[i]));
        }
    }
    assert(eligible(roles, default, other, a));
    assert(eligible(roles, default, one, b));
}

/// The index of one attribute collection.
pub struct RoleIndex {
    roles: Vec<u64>,
    ranks: Vec<i32>,
    positions: HashMap<u64, usize>,
    default: usize,
}

impl RoleIndex {
    #[verifier::type_invariant]
    spec fn inv(self) -> bool {
        &&& well_formed(self.roles@, self.ranks@, self.default as int)
        &&& forall|role: u64| #[trigger]
            self.positions@.contains_key(role) <==> self.roles@.contains(role)
        &&& forall|i: int|
            0 <= i < self.roles.len() ==> self.positions@[#[trigger] self.roles@[i]] == i
    }

    /// The role of each attribute, by position.
    pub closed spec fn roles(self) -> Seq<u64> {
        self.roles@
    }

    /// The rank of each attribute, by position.
    pub closed spec fn ranks(self) -> Seq<i32> {
        self.ranks@
    }

    /// The position of the default attribute.
    pub closed spec fn default(self) -> int {
        self.default as int
    }

    /// Builds the index of a collection. There is none where the numbers of
    /// roles and ranks differ, where the default is no position, or where two
    /// attributes are bound to one role.
    pub fn build(roles: Vec<u64>, ranks: Vec<i32>, default: usize) -> (r: Option<RoleIndex>)
        ensures
            r is Some <==> well_formed(roles@, ranks@, default as int),
            r matches Some(index) ==> index.roles() == roles@ && index.ranks() == ranks@
                && index.default() == default,
    {
        if roles.len() != ranks.len() || default >= roles.len() {
            return None;
        }
        let mut positions: HashMap<u64, usize> = HashMap::new();
        let mut i: usize = 0;
        while i < roles.len()
            invariant
                i <= roles.len(),
                distinct(roles@.take(i as int)),
                forall|role: u64| #[trigger]
                    positions@.contains_key(role) <==> roles@.take(i as int).contains(role),
                forall|k: int| 0 <= k < i ==> positions@[#[trigger] roles@[k]] == k,
            decreases roles.len() - i,
        {
            let role = roles[i];
            let ghost seen = roles@.take(i as int);
            let ghost grown = roles@.take(i + 1);
            assert(grown =~= seen.push(role));
            if positions.contains_key(&role) {
                proof {
                    let k = choose|k: int| 0 <= k < seen.len() && seen[k] == role;
                    assert(roles@[k] == roles@[i as int]);
                }
                return None;
            }
            positions.insert(role, i);
            proof {
                assert forall|a: int, b: int| 0 <= a < b < grown.len() implies grown[a]
                    != grown[b] by {
                    if b == i {
                        assert(seen[a] == grown[a]);
                        assert(seen.contains(grown[a]));
                    } else {
                        assert(seen[a] != seen[b]);
                    }
                }
                assert forall|r: u64| #[trigger]
                    positions@.contains_key(r) <==> grown.contains(r) by {
                    if grown.contains(r) {
                        let k = choose|k: int| 0 <= k < grown.len() && grown[k] == r;
                        if k < i {
                            assert(seen[k] == r);
                        }
                    }
                    if seen.contains(r) {
                        let k = choose|k: int| 0 <= k < seen.len() && seen[k] == r;
                        assert(grown[k] == r);
                    }
                    assert(grown[i as int] == role);
                }
                assert forall|k: int| 0 <= k < i + 1 implies positions@[#[trigger] roles@[k]]
                    == k by {
                    if k < i {
                        assert(seen[k] == roles@[k]);
                        assert(seen.contains(roles@[k]));
                    }
                }
            }
            i = i + 1;
        }
        proof {
            assert(roles@.take(roles.len() as int) =~= roles@);
        }
        Some(RoleIndex { roles, ranks, positions, default })
    }

    /// The position of the attribute bound to `role`.
    pub fn position(&self, role: u64) -> (r: Option<usize>)
        ensures
            well_formed(self.roles(), self.ranks(), self.default()),
            match r {
                Some(i) => position_of(self.roles(), role) == Some(i as int),
                None => position_of(self.roles(), role) is None,
            },
    {
        proof {
            use_type_invariant(self);
        }
        match self.positions.get(&role) {
            Some(i) => {
                proof {
                    let k = choose|k: int| 0 <= k < self.roles@.len() && self.roles@[k] == role;
                    assert(self.positions@[self.roles@[k]] == k);
                    lemma_position_of(self.roles@, k);
                }
                Some(*i)
            },
            None => None,
        }
    }

    /// The position of the default attribute.
    pub fn default_position(&self) -> (r: usize)
        ensures
            well_formed(self.roles(), self.ranks(), self.default()),
            r == self.default(),
    {
        proof {
            use_type_invariant(self);
        }
        self.default
    }

    /// Chooses the attribute for a member who holds the roles `held`.
    ///
    /// Starting from the default, each held role in turn that is bound to an
    /// attribute of strictly greater rank than the one chosen so far replaces
    /// it.
    pub fn select(&self, held: &Vec<u64>) -> (r: usize)
        ensures
            well_formed(self.roles(), self.ranks(), self.default()),
            is_choice(self.roles(), self.ranks(), self.default(), held@, r as int),
    {
        proof {
            use_type_invariant(self);
        }
        let mut chosen: usize = self.default;
        let mut k: usize = 0;
        proof {
            assert(held@.take(0) =~= Seq::<u64>::empty());
        }
        while k < held.len()
            invariant
                k <= held.len(),
                well_formed(self.roles(), self.ranks(), self.default()),
                is_choice(
                    self.roles(),
                    self.ranks(),
                    self.default(),
                    held@.take(k as int),
                    chosen as int,
                ),
            decreases held.len() - k,
        {
            let before = chosen;
            match self.position(held[k]) {
                Some(i) => {
                    proof {
                        use_type_invariant(self);
                    }
                    if self.ranks[i] > self.ranks[chosen] {
                        chosen = i;
                    }
                },
                None => {},
            }
            proof {
                lemma_choice_grows(
                    self.roles(),
                    self.ranks(),
                    self.default(),
                    held@,
                    k as int,
                    before as int,
                );
            }
            k = k + 1;
        }
        proof {
            assert(held@.take(held.len() as int) =~= held@);
        }
        chosen
    }
}

/// What one more held role does to the choice.
pub open spec fn next_choice(roles: Seq<u64>, ranks: Seq<i32>, chosen: int, role: u64) -> int {
    match position_of(roles, role) {
        Some(i) => if ranks[i] > ranks[chosen] {
            i
        } else {
            chosen
        },
        None => chosen,
    }
}

/// The choice among the first `k` held roles, replaced where the next held
/// role outranks it, is the choice among the first `k + 1`.
proof fn lemma_choice_grows(
    roles: Seq<u64>,
    ranks: Seq<i32>,
    default: int,
    held: Seq<u64>,
    k: int,
    chosen: int,
)
    requires
        well_formed(roles, ranks, default),
        0 <= k < held.len(),
        is_choice(roles, ranks, default, held.take(k), chosen),
    ensures
        is_choice(roles, ranks, default, held.take(k + 1), next_choice(roles, ranks, chosen, held[k])),
{
    let seen = held.take(k);
    let grown = held.take(k + 1);
    let role = held[k];
    let next = next_choice(roles, ranks, chosen, role);
    assert(grown =~= seen.push(role));
    assert(grown[k] == role);
    assert forall|r: u64| grown.contains(r) <==> seen.contains(r) || r == role by {
        if grown.contains(r) {
            let m = choose|m: int| 0 <= m < grown.len() && grown[m] == r;
            if m < k {
                assert(seen[m] == r);
            }
        }
        if seen.contains(r) {
            let m = choose|m: int| 0 <= m < seen.len() && seen[m] == r;
            assert(grown[m] == r);
        }
    }
    assert forall|i: int| eligible(roles, default, grown, i) <==> eligible(roles, default, seen, i)
        || (0 <= i < roles.len() && roles[i] == role) by {}
    if roles.contains(role) {
        let j = roles.index_of(role);
        assert forall|i: int| 0 <= i < roles.len() && roles[i] == role implies i == j by {}
        assert(eligible(roles, default, grown, j));
    }
    assert(eligible(roles, default, seen, chosen));
    assert(eligible(roles, default, grown, next));
    assert forall|i: int| #[trigger] eligible(roles, default, grown, i) implies ranks[i]
        <= ranks[next] by {
        if eligible(roles, default, seen, i) {
            assert(ranks[i] <= ranks[chosen]);
        }
    }
    assert forall|i: int| #[trigger]
        eligible(roles, default, grown, i) && ranks[i] == ranks[next] && i != next implies {
        ||| next == default
        ||| i != default && exists|n: int|
            0 <= n < grown.len() && #[trigger] grown[n] == roles[next] && forall|m: int|
                0 <= m <= n ==> #[trigger] grown[m] != roles[i]
    } by {
        if next != chosen {
            // The new choice outranks every attribute that was eligible.
            if eligible(roles, default, seen, i) {
                assert(ranks[i] <= ranks[chosen]);
            }
        } else if chosen != default {
            if eligible(roles, default, seen, i) {
                assert(i != default);
                let n = choose|n: int|
                    0 <= n < seen.len() && #[trigger] seen[n] == roles[chosen] && forall|m: int|
                        0 <= m <= n ==> #[trigger] seen[m] != roles[i];
                assert(grown[n] == roles[chosen]);
                assert forall|m: int| 0 <= m <= n implies #[trigger] grown[m] != roles[i] by {
                    assert(seen[m] == grown[m]);
                }
            } else {
                // The attribute at `i` became eligible with this role.
                assert(seen.contains(roles[chosen]));
                let n = choose|n: int| 0 <= n < seen.len() && seen[n] == roles[chosen];
                assert(grown[n] == roles[chosen]);
                assert forall|m: int| 0 <= m <= n implies #[trigger] grown[m] != roles[i] by {
                    assert(seen[m] == grown[m]);
                    assert(seen.contains(seen[m]));
                }
            }
        }
    }
}

} // verus!
