use pointercrate::demon::Demon;
use pointercrate::error::{Field, PointercrateError};
use pointercrate::list::DemonList;
use pointercrate::patch::{NullableUpdate, PatchDemon};
use pointercrate::permissions::Permission;
use pointercrate::precondition::PreconditionPolicy;

fn demon(name: &str, position: i16) -> Demon {
    Demon {
        name: String::from(name),
        position,
        requirement: 90,
        video: None,
        verifier: String::from("verifier"),
        publisher: String::from("publisher"),
    }
}

fn moderator() -> u16 {
    Permission::ListModerator.bit()
}

fn ranked_list(n: i16) -> DemonList {
    let mut list = DemonList::new();
    for i in 1..=n {
        let name = format!("d{}", i);
        list.create(demon(&name, i), moderator()).unwrap();
    }
    list
}

fn names(list: &DemonList) -> Vec<String> {
    list.rows().iter().map(|d| d.name.clone()).collect()
}

fn positions(list: &DemonList) -> Vec<i16> {
    list.rows().iter().map(|d| d.position).collect()
}

fn empty_patch() -> PatchDemon {
    PatchDemon {
        name: None,
        position: None,
        requirement: None,
        video: NullableUpdate::Absent,
        verifier: None,
        publisher: None,
    }
}

#[test]
fn create_materializes_the_resource_with_its_token() {
    let mut list = DemonList::new();
    let (out, token) = list.create(demon("first", 1), moderator()).unwrap();
    assert_eq!(out.name, "first");
    assert_eq!(out.position, 1);
    assert!(token.matches(&out.version_token()));
    assert_eq!(list.len(), 1);
}

#[test]
fn create_in_the_middle_shifts_lower_ranks_down() {
    let mut list = ranked_list(3);
    list.create(demon("wedge", 2), moderator()).unwrap();
    assert_eq!(names(&list), vec!["d1", "wedge", "d2", "d3"]);
    assert_eq!(positions(&list), vec![1, 2, 3, 4]);
}

#[test]
fn create_requires_permission_and_writes_nothing_without_it() {
    let mut list = ranked_list(2);
    let before = names(&list);
    let r = list.create(demon("intruder", 1), Permission::Administrator.bit());
    assert!(matches!(r, Err(PointercrateError::PermissionDenied)));
    assert_eq!(names(&list), before);
}

#[test]
fn create_rejects_an_out_of_range_rank() {
    let mut list = ranked_list(2);
    let r = list.create(demon("late", 4), moderator());
    match r {
        Err(PointercrateError::ValidationError(errs)) => {
            assert_eq!(errs.len(), 1);
            assert_eq!(errs[0].field, Field::Position);
        },
        other => panic!("expected a validation error, got {:?}", other),
    }
    assert_eq!(list.len(), 2);
}

#[test]
fn fetch_returns_the_resource_or_not_found() {
    let list = ranked_list(3);
    let d = list.fetch(2).unwrap();
    assert_eq!(d.name, "d2");
    assert!(matches!(list.fetch(0), Err(PointercrateError::NotFound)));
    assert!(matches!(list.fetch(4), Err(PointercrateError::NotFound)));
}

#[test]
fn moving_rank_five_to_two_shifts_the_interval_by_one() {
    let mut list = ranked_list(10);
    let token = list.fetch(5).unwrap().version_token();
    let patch = PatchDemon { position: Some(2), ..empty_patch() };
    let (out, _) = list
        .patch(5, patch, moderator(), Some(&token), PreconditionPolicy::Required)
        .unwrap();
    assert_eq!(out.name, "d5");
    assert_eq!(out.position, 2);
    assert_eq!(
        names(&list),
        vec!["d1", "d5", "d2", "d3", "d4", "d6", "d7", "d8", "d9", "d10"]
    );
    assert_eq!(positions(&list), vec![1, 2, 3, 4, 5, 6, 7, 8, 9, 10]);
}

#[test]
fn moving_down_shifts_the_interval_up() {
    let mut list = ranked_list(5);
    let token = list.fetch(2).unwrap().version_token();
    let patch = PatchDemon { position: Some(4), ..empty_patch() };
    list.patch(2, patch, moderator(), Some(&token), PreconditionPolicy::Required)
        .unwrap();
    assert_eq!(names(&list), vec!["d1", "d3", "d4", "d2", "d5"]);
    assert_eq!(positions(&list), vec![1, 2, 3, 4, 5]);
}

#[test]
fn stale_token_fails_the_precondition_and_changes_nothing() {
    let mut list = ranked_list(3);
    let stale = list.fetch(2).unwrap().version_token();

    let fresh = list.fetch(2).unwrap().version_token();
    let bump = PatchDemon { requirement: Some(80), ..empty_patch() };
    list.patch(2, bump, moderator(), Some(&fresh), PreconditionPolicy::Required)
        .unwrap();

    let before_names = names(&list);
    let before_positions = positions(&list);
    let attempt = PatchDemon { requirement: Some(70), ..empty_patch() };
    let r = list.patch(2, attempt, moderator(), Some(&stale), PreconditionPolicy::Required);
    assert!(matches!(r, Err(PointercrateError::PreconditionFailed)));
    assert_eq!(names(&list), before_names);
    assert_eq!(positions(&list), before_positions);
    assert_eq!(list.fetch(2).unwrap().requirement, 80);
}

#[test]
fn missing_token_is_rejected_when_the_policy_requires_one() {
    let mut list = ranked_list(2);
    let patch = PatchDemon { requirement: Some(70), ..empty_patch() };
    let r = list.patch(1, patch, moderator(), None, PreconditionPolicy::Required);
    assert!(matches!(r, Err(PointercrateError::PreconditionRequired)));
    assert_eq!(list.fetch(1).unwrap().requirement, 90);
}

#[test]
fn caller_without_list_permissions_is_denied_before_any_write() {
    let mut list = ranked_list(3);
    let token = list.fetch(2).unwrap().version_token();
    let before = names(&list);
    let patch = PatchDemon { requirement: Some(10), ..empty_patch() };
    let held = Permission::Administrator.bit() | Permission::Moderator.bit();
    let r = list.patch(2, patch, held, Some(&token), PreconditionPolicy::Required);
    assert!(matches!(r, Err(PointercrateError::PermissionDenied)));
    assert_eq!(names(&list), before);
    assert_eq!(list.fetch(2).unwrap().requirement, 90);
}

#[test]
fn patch_with_one_invalid_field_changes_nothing() {
    let mut list = ranked_list(3);
    let token = list.fetch(2).unwrap().version_token();
    let before_names = names(&list);
    let patch = PatchDemon {
        name: Some(String::new()),
        requirement: Some(50),
        ..empty_patch()
    };
    let r = list.patch(2, patch, moderator(), Some(&token), PreconditionPolicy::Required);
    match r {
        Err(PointercrateError::ValidationError(errs)) => {
            assert_eq!(errs.len(), 1);
            assert_eq!(errs[0].field, Field::Name);
        },
        other => panic!("expected a validation error, got {:?}", other),
    }
    assert_eq!(names(&list), before_names);
    assert_eq!(list.fetch(2).unwrap().requirement, 90);
}

#[test]
fn patch_of_missing_rank_is_not_found() {
    let mut list = ranked_list(2);
    let patch = PatchDemon { requirement: Some(50), ..empty_patch() };
    let r = list.patch(9, patch, moderator(), None, PreconditionPolicy::Optional);
    assert!(matches!(r, Err(PointercrateError::NotFound)));
}

#[test]
fn successful_patch_returns_a_fresh_token() {
    let mut list = ranked_list(2);
    let old_token = list.fetch(1).unwrap().version_token();
    let patch = PatchDemon { requirement: Some(75), ..empty_patch() };
    let (out, token) = list
        .patch(1, patch, moderator(), Some(&old_token), PreconditionPolicy::Required)
        .unwrap();
    assert!(!token.matches(&old_token));
    assert!(token.matches(&out.version_token()));
}

#[test]
fn delete_removes_and_renumbers_densely() {
    let mut list = ranked_list(5);
    let token = list.fetch(2).unwrap().version_token();
    list.delete(2, moderator(), Some(&token), PreconditionPolicy::Required)
        .unwrap();
    assert_eq!(names(&list), vec!["d1", "d3", "d4", "d5"]);
    assert_eq!(positions(&list), vec![1, 2, 3, 4]);
}

#[test]
fn delete_respects_permissions_and_preconditions() {
    let mut list = ranked_list(3);
    let token = list.fetch(3).unwrap().version_token();

    let r = list.delete(3, 0, Some(&token), PreconditionPolicy::Required);
    assert!(matches!(r, Err(PointercrateError::PermissionDenied)));

    let r = list.delete(3, moderator(), None, PreconditionPolicy::Required);
    assert!(matches!(r, Err(PointercrateError::PreconditionRequired)));

    let stale = list.fetch(1).unwrap().version_token();
    let r = list.delete(3, moderator(), Some(&stale), PreconditionPolicy::Required);
    assert!(matches!(r, Err(PointercrateError::PreconditionFailed)));
    assert_eq!(list.len(), 3);

    list.delete(3, moderator(), Some(&token), PreconditionPolicy::Required)
        .unwrap();
    assert_eq!(list.len(), 2);
}
