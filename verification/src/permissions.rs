//! Permission bitset and its satisfaction algebra.
//!
//! A [`Permission`] is an atomic capability with a fixed bit position; a
//! caller's held permissions travel as one `u16` bitset. A
//! [`PermissionsSet`] is an immutable AND/OR requirement expression over
//! atomic permissions; [`satisfies`] evaluates it against a held bitset.
//! Evaluation is pure: the same `(held, required)` pair always yields the
//! same answer.

use vstd::prelude::*;
use crate::error::PointercrateError;

verus! {

/// An atomic named capability. Bit positions are fixed for the process
/// lifetime and must never change between releases without a migration of
/// persisted permission data.
#[derive(Clone, Copy, PartialEq, Eq, Structural, Debug)]
pub enum Permission {
    ExtendedAccess,
    ListHelper,
    ListModerator,
    ListAdministrator,
    LeaderboardModerator,
    LeaderboardAdministrator,
    Moderator,
    Administrator,
}

/// The bit assigned to an atomic permission: a one-hot `u16` mask.
pub open spec fn spec_bit(p: Permission) -> u16 {
    match p {
        Permission::ExtendedAccess => 0x1,
        Permission::ListHelper => 0x2,
        Permission::ListModerator => 0x4,
        Permission::ListAdministrator => 0x8,
        Permission::LeaderboardModerator => 0x10,
        Permission::LeaderboardAdministrator => 0x20,
        Permission::Moderator => 0x2000,
        Permission::Administrator => 0x4000,
    }
}

impl Permission {
    /// The one-hot bitmask of this permission inside a held bitset.
    pub fn bit(self) -> (r: u16)
        ensures
            r == spec_bit(self),
    {
        match self {
            Permission::ExtendedAccess => 0x1,
            Permission::ListHelper => 0x2,
            Permission::ListModerator => 0x4,
            Permission::ListAdministrator => 0x8,
            Permission::LeaderboardModerator => 0x10,
            Permission::LeaderboardAdministrator => 0x20,
            Permission::Moderator => 0x2000,
            Permission::Administrator => 0x4000,
        }
    }
}

/// Whether a held bitset grants one atomic permission.
pub open spec fn holds(held: u16, p: Permission) -> bool {
    held & spec_bit(p) == spec_bit(p)
}

/// The AND/OR combinator applied by [`combine`].
#[derive(Clone, Copy, PartialEq, Eq, Structural, Debug)]
pub enum BoolOp {
    Conjunction,
    Disjunction,
}

/// An immutable boolean requirement expression over atomic permissions.
#[derive(PartialEq, Eq, Debug)]
pub enum PermissionsSet {
    One(Permission),
    And(Box<PermissionsSet>, Box<PermissionsSet>),
    Or(Box<PermissionsSet>, Box<PermissionsSet>),
}

/// What it means for a held bitset to satisfy a requirement expression.
pub open spec fn satisfied(held: u16, s: PermissionsSet) -> bool
    decreases s,
{
    match s {
        PermissionsSet::One(p) => holds(held, p),
        PermissionsSet::And(a, b) => satisfied(held, *a) && satisfied(held, *b),
        PermissionsSet::Or(a, b) => satisfied(held, *a) || satisfied(held, *b),
    }
}

/// Evaluates a requirement expression against the caller's held bitset.
/// Short-circuits, but the result never depends on evaluation order.
pub fn satisfies(held: u16, required: &PermissionsSet) -> (r: bool)
    ensures
        r == satisfied(held, *required),
    decreases *required,
{
    match required {
        PermissionsSet::One(p) => {
            let bit = p.bit();
            held & bit == bit
        },
        PermissionsSet::And(a, b) => satisfies(held, a) && satisfies(held, b),
        PermissionsSet::Or(a, b) => satisfies(held, a) || satisfies(held, b),
    }
}

/// Combines two requirement expressions with AND or OR semantics.
pub fn combine(a: PermissionsSet, op: BoolOp, b: PermissionsSet) -> (r: PermissionsSet)
    ensures
        op == BoolOp::Conjunction ==> r == PermissionsSet::And(Box::new(a), Box::new(b)),
        op == BoolOp::Disjunction ==> r == PermissionsSet::Or(Box::new(a), Box::new(b)),
        forall|held: u16| op == BoolOp::Conjunction ==>
            #[trigger] satisfied(held, r) == (satisfied(held, a) && satisfied(held, b)),
        forall|held: u16| op == BoolOp::Disjunction ==>
            #[trigger] satisfied(held, r) == (satisfied(held, a) || satisfied(held, b)),
    {
    match op {
        BoolOp::Conjunction => PermissionsSet::And(Box::new(a), Box::new(b)),
        BoolOp::Disjunction => PermissionsSet::Or(Box::new(a), Box::new(b)),
    }
}

/// The process-wide permission configuration, built once at startup and
/// passed by reference to every place that constructs requirement
/// expressions. Building an expression over a permission that was never
/// registered fails here, at startup, never at request time.
pub struct PermissionRegistry {
    registered: Vec<Permission>,
}

impl PermissionRegistry {
    /// The permissions this registry knows.
    pub closed spec fn view(&self) -> Seq<Permission> {
        self.registered@
    }

    /// A registry over the given permissions.
    pub fn new(registered: Vec<Permission>) -> (r: PermissionRegistry)
        ensures
            r@ == registered@,
    {
        PermissionRegistry { registered }
    }

    /// Whether one atomic permission was registered.
    pub fn is_registered(&self, p: Permission) -> (r: bool)
        ensures
            r == self@.contains(p),
    {
        let mut i: usize = 0;
        while i < self.registered.len()
            invariant
                i <= self.registered.len(),
                forall|j: int| 0 <= j < i ==> self.registered@[j] != p,
            decreases self.registered.len() - i,
        {
            if self.registered[i] == p {
                return true;
            }
            i = i + 1;
        }
        false
    }

    /// A requirement expression over a single registered permission.
    /// Referencing an unregistered permission is a configuration fault.
    pub fn require_one(&self, p: Permission) -> (r: Result<PermissionsSet, PointercrateError>)
        ensures
            self@.contains(p) <==> r is Ok,
            r matches Ok(s) ==> s == PermissionsSet::One(p),
            r matches Err(e) ==> e is ConfigurationError,
    {
        if self.is_registered(p) {
            Ok(PermissionsSet::One(p))
        } else {
            Err(PointercrateError::ConfigurationError)
        }
    }
}

/// Law: within each combinator, satisfaction is commutative — swapping the
/// operands of an AND or an OR never changes the verdict, for every held
/// bitset.
pub proof fn lemma_satisfies_commutative(held: u16, a: PermissionsSet, b: PermissionsSet)
    ensures
        satisfied(held, PermissionsSet::And(Box::new(a), Box::new(b)))
            == satisfied(held, PermissionsSet::And(Box::new(b), Box::new(a))),
        satisfied(held, PermissionsSet::Or(Box::new(a), Box::new(b)))
            == satisfied(held, PermissionsSet::Or(Box::new(b), Box::new(a))),
{
    reveal_with_fuel(satisfied, 2);
}

/// Law: within each combinator, satisfaction is associative — regrouping
/// nested ANDs or nested ORs never changes the verdict, for every held
/// bitset.
pub proof fn lemma_satisfies_associative(
    held: u16,
    a: PermissionsSet,
    b: PermissionsSet,
    c: PermissionsSet,
)
    ensures
        satisfied(held, PermissionsSet::And(Box::new(a), Box::new(PermissionsSet::And(Box::new(b), Box::new(c)))))
            == satisfied(held, PermissionsSet::And(Box::new(PermissionsSet::And(Box::new(a), Box::new(b))), Box::new(c))),
        satisfied(held, PermissionsSet::Or(Box::new(a), Box::new(PermissionsSet::Or(Box::new(b), Box::new(c)))))
            == satisfied(held, PermissionsSet::Or(Box::new(PermissionsSet::Or(Box::new(a), Box::new(b))), Box::new(c))),
{
    reveal_with_fuel(satisfied, 3);
}

/// Law: AND distributes over OR — `(a or b) and c` is satisfied exactly when
/// `(a and c) or (b and c)` is, for every held bitset; and dually, OR
/// distributes over AND.
pub proof fn lemma_satisfies_distributive(
    held: u16,
    a: PermissionsSet,
    b: PermissionsSet,
    c: PermissionsSet,
)
    ensures
        satisfied(held, PermissionsSet::And(Box::new(PermissionsSet::Or(Box::new(a), Box::new(b))), Box::new(c)))
            == satisfied(held, PermissionsSet::Or(
                Box::new(PermissionsSet::And(Box::new(a), Box::new(c))),
                Box::new(PermissionsSet::And(Box::new(b), Box::new(c))),
            )),
        satisfied(held, PermissionsSet::Or(Box::new(PermissionsSet::And(Box::new(a), Box::new(b))), Box::new(c)))
            == satisfied(held, PermissionsSet::And(
                Box::new(PermissionsSet::Or(Box::new(a), Box::new(c))),
                Box::new(PermissionsSet::Or(Box::new(b), Box::new(c))),
            )),
{
    reveal_with_fuel(satisfied, 3);
}

} // verus!
