use pointercrate::error::PointercrateError;
use pointercrate::permissions::{
    combine, satisfies, BoolOp, Permission, PermissionRegistry, PermissionsSet,
};

fn one(p: Permission) -> PermissionsSet {
    PermissionsSet::One(p)
}

fn and(a: PermissionsSet, b: PermissionsSet) -> PermissionsSet {
    PermissionsSet::And(Box::new(a), Box::new(b))
}

fn or(a: PermissionsSet, b: PermissionsSet) -> PermissionsSet {
    PermissionsSet::Or(Box::new(a), Box::new(b))
}

#[test]
fn permission_bits_are_one_hot_and_distinct() {
    let all = [
        Permission::ExtendedAccess,
        Permission::ListHelper,
        Permission::ListModerator,
        Permission::ListAdministrator,
        Permission::LeaderboardModerator,
        Permission::LeaderboardAdministrator,
        Permission::Moderator,
        Permission::Administrator,
    ];
    let mut seen: u16 = 0;
    for p in all {
        let b = p.bit();
        assert_eq!(b.count_ones(), 1);
        assert_eq!(seen & b, 0);
        seen |= b;
    }
}

#[test]
fn satisfies_atom_and_or() {
    let moderator = Permission::ListModerator.bit();
    let admin = Permission::ListAdministrator.bit();

    assert!(satisfies(moderator, &one(Permission::ListModerator)));
    assert!(!satisfies(moderator, &one(Permission::ListAdministrator)));

    let either = or(one(Permission::ListModerator), one(Permission::ListAdministrator));
    assert!(satisfies(moderator, &either));
    assert!(satisfies(admin, &either));
    assert!(satisfies(moderator | admin, &either));
    assert!(!satisfies(0, &either));

    let both = and(one(Permission::ListModerator), one(Permission::ListAdministrator));
    assert!(!satisfies(moderator, &both));
    assert!(!satisfies(admin, &both));
    assert!(satisfies(moderator | admin, &both));
}

#[test]
fn combine_builds_the_requested_node() {
    let a = one(Permission::Moderator);
    let b = one(Permission::Administrator);
    let c = combine(a, BoolOp::Conjunction, b);
    assert_eq!(
        c,
        and(one(Permission::Moderator), one(Permission::Administrator))
    );
    let d = combine(one(Permission::Moderator), BoolOp::Disjunction, one(Permission::Administrator));
    assert_eq!(
        d,
        or(one(Permission::Moderator), one(Permission::Administrator))
    );
}

#[test]
fn satisfies_is_commutative_and_associative_on_samples() {
    let a = || one(Permission::ExtendedAccess);
    let b = || one(Permission::ListHelper);
    let c = || one(Permission::Moderator);
    for held in [
        0u16,
        Permission::ExtendedAccess.bit(),
        Permission::ListHelper.bit(),
        Permission::Moderator.bit(),
        Permission::ExtendedAccess.bit() | Permission::ListHelper.bit(),
        0xffff,
    ] {
        assert_eq!(satisfies(held, &and(a(), b())), satisfies(held, &and(b(), a())));
        assert_eq!(satisfies(held, &or(a(), b())), satisfies(held, &or(b(), a())));
        assert_eq!(
            satisfies(held, &and(a(), and(b(), c()))),
            satisfies(held, &and(and(a(), b()), c()))
        );
        assert_eq!(
            satisfies(held, &or(a(), or(b(), c()))),
            satisfies(held, &or(or(a(), b()), c()))
        );
    }
}

#[test]
fn and_distributes_over_or_on_samples() {
    let a = || one(Permission::ExtendedAccess);
    let b = || one(Permission::ListHelper);
    let c = || one(Permission::Moderator);
    for held in [
        0u16,
        Permission::ExtendedAccess.bit() | Permission::Moderator.bit(),
        Permission::ListHelper.bit() | Permission::Moderator.bit(),
        Permission::ExtendedAccess.bit() | Permission::ListHelper.bit(),
        0xffff,
    ] {
        assert_eq!(
            satisfies(held, &and(or(a(), b()), c())),
            satisfies(held, &or(and(a(), c()), and(b(), c())))
        );
    }
}

#[test]
fn registry_rejects_unregistered_permissions_at_startup() {
    let registry = PermissionRegistry::new(vec![
        Permission::ListModerator,
        Permission::ListAdministrator,
    ]);
    assert!(registry.is_registered(Permission::ListModerator));
    assert!(!registry.is_registered(Permission::Administrator));

    let ok = registry.require_one(Permission::ListAdministrator);
    assert!(matches!(ok, Ok(PermissionsSet::One(Permission::ListAdministrator))));

    let err = registry.require_one(Permission::Administrator);
    assert!(matches!(err, Err(PointercrateError::ConfigurationError)));
}
