use pointercrate::demon::Demon;
use pointercrate::precondition::{check, Outcome, PreconditionPolicy};

fn sample() -> Demon {
    Demon {
        name: String::from("Sample"),
        position: 3,
        requirement: 90,
        video: Some(String::from("https://example.test/v")),
        verifier: String::from("verifier"),
        publisher: String::from("publisher"),
    }
}

#[test]
fn token_derivation_is_deterministic() {
    let d = sample();
    let t1 = d.version_token();
    let t2 = d.version_token();
    assert!(t1.matches(&t2));
}

#[test]
fn mutating_any_field_changes_the_token() {
    let base = sample();
    let before = base.version_token();

    let mut d = sample();
    d.name = String::from("Renamed");
    assert!(!d.version_token().matches(&before));

    let mut d = sample();
    d.position = 4;
    assert!(!d.version_token().matches(&before));

    let mut d = sample();
    d.requirement = 91;
    assert!(!d.version_token().matches(&before));

    let mut d = sample();
    d.video = None;
    assert!(!d.version_token().matches(&before));

    let mut d = sample();
    d.verifier = String::from("other");
    assert!(!d.version_token().matches(&before));

    let mut d = sample();
    d.publisher = String::from("other");
    assert!(!d.version_token().matches(&before));
}

#[test]
fn equal_state_yields_equal_tokens() {
    let a = sample();
    let b = sample();
    assert!(a.version_token().matches(&b.version_token()));
}

#[test]
fn check_proceeds_on_matching_token() {
    let d = sample();
    let current = d.version_token();
    let presented = d.version_token();
    assert_eq!(
        check(Some(&presented), &current, PreconditionPolicy::Required),
        Outcome::Proceed
    );
}

#[test]
fn check_fails_on_stale_token() {
    let d = sample();
    let stale = d.version_token();
    let mut changed = sample();
    changed.requirement = 50;
    let current = changed.version_token();
    assert_eq!(
        check(Some(&stale), &current, PreconditionPolicy::Required),
        Outcome::PreconditionFailed
    );
    assert_eq!(
        check(Some(&stale), &current, PreconditionPolicy::Optional),
        Outcome::PreconditionFailed
    );
}

#[test]
fn check_demands_token_when_policy_requires_one() {
    let d = sample();
    let current = d.version_token();
    assert_eq!(
        check(None, &current, PreconditionPolicy::Required),
        Outcome::PreconditionRequired
    );
    assert_eq!(check(None, &current, PreconditionPolicy::Optional), Outcome::Proceed);
}
