//! Optimistic-concurrency precondition check.
//!
//! Before any mutation, the caller-presented version token is held against
//! the resource's current one. The caller of a mutating operation runs this
//! check and the mutation against the same snapshot of the collection, so a
//! concurrent writer cannot slip in between check and patch.

use vstd::prelude::*;
use crate::demon::{DemonView, VersionToken};

verus! {

/// Whether a mutation demands a version token or merely checks one when
/// presented.
#[derive(Clone, Copy, PartialEq, Eq, Structural, Debug)]
pub enum PreconditionPolicy {
    Required,
    Optional,
}

/// The verdict of the precondition check.
#[derive(Clone, Copy, PartialEq, Eq, Structural, Debug)]
pub enum Outcome {
    /// The token matches, or the policy is optional and none was presented.
    Proceed,
    /// The presented token is stale: the resource changed underneath the
    /// caller, who must re-fetch and retry.
    PreconditionFailed,
    /// The policy demands a token and the caller presented none.
    PreconditionRequired,
}

/// The verdict [`check`] returns, as a function of the inputs' views.
pub open spec fn spec_check(
    presented: Option<DemonView>,
    current: DemonView,
    policy: PreconditionPolicy,
) -> Outcome {
    match presented {
        Option::None => if policy is Required {
            Outcome::PreconditionRequired
        } else {
            Outcome::Proceed
        },
        Option::Some(p) => if p == current {
            Outcome::Proceed
        } else {
            Outcome::PreconditionFailed
        },
    }
}

/// Validates a caller-presented version token against the resource's
/// current one. Must run before the mutation it guards is applied.
pub fn check(
    presented: Option<&VersionToken>,
    current: &VersionToken,
    policy: PreconditionPolicy,
) -> (r: Outcome)
    ensures
        r == spec_check(
            match presented {
                Option::Some(t) => Option::Some(t@),
                Option::None => Option::None::<DemonView>,
            },
            current@,
            policy,
        ),
{
    match presented {
        Option::None => {
            if policy == PreconditionPolicy::Required {
                Outcome::PreconditionRequired
            } else {
                Outcome::Proceed
            }
        },
        Option::Some(t) => {
            if t.matches(current) {
                Outcome::Proceed
            } else {
                Outcome::PreconditionFailed
            }
        },
    }
}

} // verus!
