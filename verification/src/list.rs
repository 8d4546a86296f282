//! The ranked collection and its operation entry points.
//!
//! A [`DemonList`] keeps its resources densely ranked: the resource at
//! index `i` always carries position `i + 1`, so the ranking is contiguous
//! and duplicate-free. Every mutating operation (create, patch, delete)
//! is one call on the whole collection value — the in-memory analogue of
//! one transaction: it either returns `Ok` with the full effect applied,
//! or an error with the collection exactly as it was.
//!
//! The patch pipeline runs, in order: identity resolution, the base
//! permission check, the precondition (version token) check, validation of
//! every present field (failures accumulate), and only then the mutation
//! together with its cascading renumber.

use vstd::prelude::*;
use crate::demon::{Demon, DemonView, VersionToken};
use crate::error::{PointercrateError, ValidationFailure};
use crate::patch::{
    apply_patch, list_mod_or_admin, patch_failures, patch_valid, spec_list_mod_or_admin, Hotfix,
    PatchDemon,
};
use crate::permissions::{satisfied, satisfies, PermissionsSet};
use crate::precondition::{check, spec_check, Outcome, PreconditionPolicy};

verus! {

/// The largest collection the rank type `i16` can represent.
pub open spec fn max_len() -> int {
    0x7ffe
}

/// A state equal to `d` except for its rank.
pub open spec fn with_rank(d: DemonView, rank: int) -> DemonView {
    DemonView {
        name: d.name,
        position: rank,
        requirement: d.requirement,
        video: d.video,
        verifier: d.verifier,
        publisher: d.publisher,
    }
}

/// Every element re-ranked to its index: the result is densely ranked
/// whatever the input positions were.
pub open spec fn renumbered(s: Seq<DemonView>) -> Seq<DemonView> {
    Seq::new(s.len(), |i: int| with_rank(s[i], i + 1))
}

/// The element at `from` moved so that it lands at index `to`, everything
/// else keeping its order.
pub open spec fn moved(s: Seq<DemonView>, from: int, to: int) -> Seq<DemonView> {
    s.remove(from).insert(to, s[from])
}

/// What a successful patch of the element at `idx` turns the collection
/// into: the patched state replaces the old one, the element moves to the
/// rank the patch gave it, and the whole collection is re-ranked densely.
pub open spec fn patched_list(s: Seq<DemonView>, idx: int, p: crate::patch::PatchDemonView) -> Seq<
    DemonView,
> {
    let d2 = apply_patch(s[idx], p);
    renumbered(moved(s.update(idx, d2), idx, d2.position - 1))
}

/// An ordered, densely ranked collection of resources.
pub struct DemonList {
    demons: Vec<Demon>,
}

impl DemonList {
    /// The observable states of the collection's resources, in rank order.
    pub closed spec fn view(&self) -> Seq<DemonView> {
        self.demons@.map_values(|d: Demon| d@)
    }

    /// The collection invariant: ranks are exactly `1..=len`, dense and
    /// duplicate-free, and one more resource would still have a
    /// representable rank.
    pub open spec fn wf(&self) -> bool {
        self@.len() <= max_len() && forall|i: int|
            0 <= i < self@.len() ==> (#[trigger] self@[i]).position == i + 1
    }

    /// An empty collection.
    pub fn new() -> (r: DemonList)
        ensures
            r@ =~= Seq::<DemonView>::empty(),
            r.wf(),
    {
        DemonList { demons: Vec::new() }
    }

    /// How many resources the collection holds.
    pub fn len(&self) -> (n: usize)
        ensures
            n == self@.len(),
    {
        self.demons.len()
    }

    /// The stored rows, for read-only traversal.
    pub fn rows(&self) -> (r: &Vec<Demon>)
        ensures
            r@.map_values(|d: Demon| d@) == self@,
    {
        &self.demons
    }

    /// Re-ranks every resource to its index. Establishes the collection
    /// invariant from any order of the same resources.
    fn renumber(&mut self)
        requires
            old(self)@.len() <= max_len(),
        ensures
            final(self)@ =~= renumbered(old(self)@),
            final(self).wf(),
    {
        let n = self.demons.len();
        let mut i: usize = 0;
        while i < n
            invariant
                n == self.demons.len(),
                n == old(self)@.len(),
                n <= max_len(),
                i <= n,
                forall|j: int| 0 <= j < i ==> self@[j] == with_rank(old(self)@[j], j + 1),
                forall|j: int| i <= j < n ==> self@[j] == old(self)@[j],
            decreases n - i,
        {
            let ghost pre = self@;
            let mut d = self.demons.remove(i);
            d.position = (i + 1) as i16;
            let ghost dv = d@;
            self.demons.insert(i, d);
            proof {
                assert(dv =~= with_rank(pre[i as int], i + 1));
                assert(self@ =~= pre.update(i as int, dv));
            }
            i = i + 1;
        }
    }

    /// Moves the resource at index `from` to index `to` and re-ranks the
    /// whole collection: the cascading renumber. Every other resource
    /// keeps its relative order; afterwards the ranking is dense again.
    pub fn mv(&mut self, from: usize, to: usize)
        requires
            old(self)@.len() <= max_len(),
            from < old(self)@.len(),
            to < old(self)@.len(),
        ensures
            final(self)@ =~= renumbered(moved(old(self)@, from as int, to as int)),
            final(self).wf(),
    {
        let d = self.demons.remove(from);
        self.demons.insert(to, d);
        proof {
            assert(self@ =~= moved(old(self)@, from as int, to as int));
        }
        self.renumber();
    }

    /// Fetches the resource at one rank. Read-only; no permission is
    /// required.
    pub fn fetch(&self, position: i16) -> (r: Result<Demon, PointercrateError>)
        ensures
            1 <= position <= self@.len() ==> (r matches Ok(d) && d@ == self@[position - 1]),
            !(1 <= position <= self@.len()) ==> (r matches Err(e) && e is NotFound),
    {
        if 1 <= position && position as usize <= self.demons.len() {
            let idx = (position - 1) as usize;
            Ok(self.demons[idx].clone())
        } else {
            Err(PointercrateError::NotFound)
        }
    }

    /// Patches the resource at `position`: permission gate, precondition
    /// check, validation of every present field, then the mutation and its
    /// rank cascade as one step. Any error leaves the collection exactly
    /// as it was. On success returns the updated resource and its freshly
    /// derived version token.
    ///
    /// This resource type declares no per-field permission requirements
    /// beyond the base set, and a permission shortfall hard-fails the
    /// whole request rather than silently dropping fields; that policy is
    /// applied uniformly to every operation here.
    pub fn patch(
        &mut self,
        position: i16,
        patch: PatchDemon,
        held: u16,
        presented: Option<&VersionToken>,
        policy: PreconditionPolicy,
    ) -> (r: Result<(Demon, VersionToken), PointercrateError>)
        requires
            old(self).wf(),
        ensures
            final(self).wf(),
            r is Err ==> final(self)@ == old(self)@,
            !(1 <= position <= old(self)@.len()) ==> (r matches Err(e) && e is NotFound),
            1 <= position <= old(self)@.len() && !satisfied(held, spec_list_mod_or_admin()) ==> (
            r matches Err(e) && e is PermissionDenied),
            1 <= position <= old(self)@.len() && satisfied(held, spec_list_mod_or_admin()) ==> {
                let verdict = spec_check(
                    match presented {
                        Option::Some(t) => Option::Some(t@),
                        Option::None => Option::None,
                    },
                    old(self)@[position - 1],
                    policy,
                );
                &&& verdict is PreconditionRequired ==> (r matches Err(e)
                    && e is PreconditionRequired)
                &&& verdict is PreconditionFailed ==> (r matches Err(e) && e is PreconditionFailed)
                &&& verdict is Proceed && !patch_valid(patch@, old(self)@.len() as int) ==> (
                r matches Err(PointercrateError::ValidationError(errs)) && errs@ == patch_failures(
                    patch@,
                    old(self)@.len() as int,
                ))
                &&& verdict is Proceed && patch_valid(patch@, old(self)@.len() as int) ==> (
                r matches Ok(out) && out.0@ == apply_patch(old(self)@[position - 1], patch@)
                    && out.1@ == out.0@ && final(self)@ == patched_list(
                    old(self)@,
                    position - 1,
                    patch@,
                ))
            },
    {
        let len = self.demons.len();
        if !(1 <= position && position as usize <= len) {
            return Err(PointercrateError::NotFound);
        }
        let idx = (position - 1) as usize;

        let required = patch.required_permissions();
        if !satisfies(held, &required) {
            return Err(PointercrateError::PermissionDenied);
        }

        let current = self.demons[idx].version_token();
        match check(presented, &current, policy) {
            Outcome::PreconditionRequired => {
                return Err(PointercrateError::PreconditionRequired);
            },
            Outcome::PreconditionFailed => {
                return Err(PointercrateError::PreconditionFailed);
            },
            Outcome::Proceed => {},
        }

        let errs = patch.validate(len);
        if errs.len() > 0 {
            return Err(PointercrateError::ValidationError(errs));
        }

        proof {
            lemma_patch_valid_position(patch@, len as int);
        }
        let d = self.demons.remove(idx);
        let d = match d.patch(patch, len) {
            Ok(x) => x,
            Err(e) => {
                proof {
                    assert(false);
                }
                return Err(e);
            },
        };
        proof {
            if patch@.position is None {
                assert(d@.position == old(self)@[idx as int].position);
            }
            assert(1 <= d@.position <= len);
        }
        let newidx = (d.position - 1) as usize;
        self.demons.insert(idx, d);
        proof {
            assert(self@ =~= old(self)@.update(
                idx as int,
                apply_patch(old(self)@[idx as int], patch@),
            ));
        }
        self.mv(idx, newidx);

        let out = self.demons[newidx].clone();
        let token = out.version_token();
        proof {
            assert(self@ =~= patched_list(old(self)@, position - 1, patch@));
            assert(out@ == self@[newidx as int]);
            assert(out@ =~= apply_patch(old(self)@[position - 1], patch@));
        }
        Ok((out, token))
    }

    /// Creates a resource at the rank its payload carries, shifting every
    /// resource at or below that rank down by one: the insert cascade.
    /// The payload's rank may be one past the current end. On success
    /// returns the materialized resource and its version token.
    pub fn create(&mut self, data: Demon, held: u16) -> (r: Result<
        (Demon, VersionToken),
        PointercrateError,
    >)
        requires
            old(self).wf(),
            old(self)@.len() < max_len(),
        ensures
            final(self).wf(),
            r is Err ==> final(self)@ == old(self)@,
            !satisfied(held, spec_list_mod_or_admin()) ==> (r matches Err(e)
                && e is PermissionDenied),
            satisfied(held, spec_list_mod_or_admin()) && !create_valid(data@, old(self)@.len() as int)
                ==> (r matches Err(PointercrateError::ValidationError(errs)) && errs@
                == create_failures(data@, old(self)@.len() as int)),
            satisfied(held, spec_list_mod_or_admin()) && create_valid(data@, old(self)@.len() as int)
                ==> (r matches Ok(out) && out.0@ == data@ && out.1@ == out.0@ && final(self)@
                == renumbered(old(self)@.insert(data@.position - 1, data@))),
    {
        let required = list_mod_or_admin();
        if !satisfies(held, &required) {
            return Err(PointercrateError::PermissionDenied);
        }

        let len = self.demons.len();
        let errs = validate_create(&data, len);
        if errs.len() > 0 {
            return Err(PointercrateError::ValidationError(errs));
        }

        proof {
            let pv = crate::patch::PatchDemonView {
                name: Option::Some(data@.name),
                position: Option::Some(data@.position),
                requirement: Option::Some(data@.requirement),
                video: match data@.video {
                    Option::Some(v) => crate::patch::NullableUpdate::Value(v),
                    Option::None => crate::patch::NullableUpdate::Absent,
                },
                verifier: Option::Some(data@.verifier),
                publisher: Option::Some(data@.publisher),
            };
            lemma_patch_valid_position(pv, len as int + 1);
        }
        let idx = (data.position - 1) as usize;
        let out = data.clone();
        self.demons.insert(idx, data);
        proof {
            assert(self@ =~= old(self)@.insert(data@.position - 1, data@));
        }
        self.renumber();
        let token = out.version_token();
        Ok((out, token))
    }

    /// Deletes the resource at one rank, re-ranking those below it so the
    /// collection stays dense. Gated by the same permission set as a
    /// patch, and by the precondition check.
    pub fn delete(
        &mut self,
        position: i16,
        held: u16,
        presented: Option<&VersionToken>,
        policy: PreconditionPolicy,
    ) -> (r: Result<(), PointercrateError>)
        requires
            old(self).wf(),
        ensures
            final(self).wf(),
            r is Err ==> final(self)@ == old(self)@,
            !(1 <= position <= old(self)@.len()) ==> (r matches Err(e) && e is NotFound),
            1 <= position <= old(self)@.len() && !satisfied(held, spec_list_mod_or_admin()) ==> (
            r matches Err(e) && e is PermissionDenied),
            1 <= position <= old(self)@.len() && satisfied(held, spec_list_mod_or_admin()) ==> {
                let verdict = spec_check(
                    match presented {
                        Option::Some(t) => Option::Some(t@),
                        Option::None => Option::None,
                    },
                    old(self)@[position - 1],
                    policy,
                );
                &&& verdict is PreconditionRequired ==> (r matches Err(e)
                    && e is PreconditionRequired)
                &&& verdict is PreconditionFailed ==> (r matches Err(e) && e is PreconditionFailed)
                &&& verdict is Proceed ==> (r is Ok && final(self)@ == renumbered(
                    old(self)@.remove(position - 1),
                ))
            },
    {
        let len = self.demons.len();
        if !(1 <= position && position as usize <= len) {
            return Err(PointercrateError::NotFound);
        }
        let idx = (position - 1) as usize;

        let required = list_mod_or_admin();
        if !satisfies(held, &required) {
            return Err(PointercrateError::PermissionDenied);
        }

        let current = self.demons[idx].version_token();
        match check(presented, &current, policy) {
            Outcome::PreconditionRequired => {
                return Err(PointercrateError::PreconditionRequired);
            },
            Outcome::PreconditionFailed => {
                return Err(PointercrateError::PreconditionFailed);
            },
            Outcome::Proceed => {},
        }

        self.demons.remove(idx);
        proof {
            assert(self@ =~= old(self)@.remove(position - 1));
        }
        self.renumber();
        Ok(())
    }
}

/// Every validation failure a create payload produces against a collection
/// of length `len`; the new rank may be one past the current end.
pub open spec fn create_failures(d: DemonView, len: int) -> Seq<ValidationFailure> {
    patch_failures(
        crate::patch::PatchDemonView {
            name: Option::Some(d.name),
            position: Option::Some(d.position),
            requirement: Option::Some(d.requirement),
            video: match d.video {
                Option::Some(v) => crate::patch::NullableUpdate::Value(v),
                Option::None => crate::patch::NullableUpdate::Absent,
            },
            verifier: Option::Some(d.verifier),
            publisher: Option::Some(d.publisher),
        },
        len + 1,
    )
}

/// A create payload passes validation exactly when it produces no failure.
pub open spec fn create_valid(d: DemonView, len: int) -> bool {
    create_failures(d, len).len() == 0
}

/// Validates a create payload: every field as on a patch, with the rank
/// allowed to be one past the current end.
fn validate_create(data: &Demon, len: usize) -> (errs: Vec<ValidationFailure>)
    requires
        len < usize::MAX,
    ensures
        errs@ == create_failures(data@, len as int),
{
    let probe = PatchDemon {
        name: Option::Some(data.name.clone()),
        position: Option::Some(data.position),
        requirement: Option::Some(data.requirement),
        video: match &data.video {
            Option::Some(v) => crate::patch::NullableUpdate::Value(v.clone()),
            Option::None => crate::patch::NullableUpdate::Absent,
        },
        verifier: Option::Some(data.verifier.clone()),
        publisher: Option::Some(data.publisher.clone()),
    };
    let errs = probe.validate(len + 1);
    proof {
        assert(probe@ =~= (crate::patch::PatchDemonView {
            name: Option::Some(data@.name),
            position: Option::Some(data@.position),
            requirement: Option::Some(data@.requirement),
            video: match data@.video {
                Option::Some(v) => crate::patch::NullableUpdate::Value(v),
                Option::None => crate::patch::NullableUpdate::Absent,
            },
            verifier: Option::Some(data@.verifier),
            publisher: Option::Some(data@.publisher),
        }));
    }
    errs
}

/// From a payload that passed validation, each present field satisfies its
/// validator; in particular a present rank lies inside the collection.
pub proof fn lemma_patch_valid_position(p: crate::patch::PatchDemonView, len: int)
    requires
        patch_valid(p, len),
    ensures
        p.name matches Option::Some(n) ==> crate::patch::valid_name(n),
        p.position matches Option::Some(q) ==> crate::patch::valid_position(q, len),
        p.requirement matches Option::Some(q) ==> crate::patch::valid_requirement(q),
        p.video matches crate::patch::NullableUpdate::Value(v) ==> crate::patch::valid_video(v),
        p.verifier matches Option::Some(v) ==> crate::patch::valid_name(v),
        p.publisher matches Option::Some(v) ==> crate::patch::valid_name(v),
{
}

/// Law (cascading renumber): moving the resource at index `from` to index
/// `to` in a densely ranked collection shifts exactly the ranks between
/// the two indices by one, leaves every resource outside that interval
/// untouched, and yields a ranking that is again contiguous and
/// duplicate-free.
pub proof fn lemma_mv_cascade(s: Seq<DemonView>, from: int, to: int)
    requires
        0 <= from < s.len(),
        0 <= to < s.len(),
        forall|i: int| 0 <= i < s.len() ==> (#[trigger] s[i]).position == i + 1,
    ensures
        renumbered(moved(s, from, to)).len() == s.len(),
        forall|i: int|
            0 <= i < s.len() ==> (#[trigger] renumbered(moved(s, from, to))[i]).position == i + 1,
        renumbered(moved(s, from, to))[to] == with_rank(s[from], to + 1),
        forall|i: int|
            0 <= i < s.len() && (i < from && i < to || i > from && i > to) ==> #[trigger] renumbered(
                moved(s, from, to),
            )[i] == s[i],
        to < from ==> forall|i: int|
            to <= i < from ==> #[trigger] renumbered(moved(s, from, to))[i + 1] == with_rank(
                s[i],
                i + 2,
            ),
        from < to ==> forall|i: int|
            from < i <= to ==> #[trigger] renumbered(moved(s, from, to))[i - 1] == with_rank(
                s[i],
                i,
            ),
{
    let m = moved(s, from, to);
    let r = renumbered(m);
    assert forall|i: int|
        0 <= i < s.len() && (i < from && i < to || i > from && i > to) implies #[trigger] r[i]
        == s[i] by {
        assert(m[i] == s[i]);
        assert(r[i] == with_rank(s[i], i + 1));
        assert(s[i].position == i + 1);
        assert(with_rank(s[i], i + 1) =~= s[i]);
    }
    if to < from {
        assert forall|i: int| to <= i < from implies #[trigger] r[i + 1] == with_rank(
            s[i],
            i + 2,
        ) by {
            assert(m[i + 1] == s[i]);
        }
    }
    if from < to {
        assert forall|i: int| from < i <= to implies #[trigger] r[i - 1] == with_rank(s[i], i) by {
            assert(m[i - 1] == s[i]);
        }
    }
}

} // verus!
