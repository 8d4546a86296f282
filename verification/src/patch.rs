//! Field-level validation and partial-update application.
//!
//! A [`PatchDemon`] is a sparse payload: each field is absent, null (for
//! the one nullable field) or a value. Validation runs every present
//! field's validator and collects all failures; application only happens
//! when no field failed, so a patch is all-or-nothing. The rank cascade a
//! `position` change triggers belongs to the collection
//! ([`crate::list::DemonList::patch`]); patching a lone resource merely
//! sets the field.

use vstd::prelude::*;
use crate::demon::{Demon, DemonView, Record, RecordView};
use crate::error::{Field, PointercrateError, Reason, ValidationFailure};
use crate::permissions::{Permission, PermissionsSet};

verus! {

/// A sparse update to a nullable field: leave untouched, clear, or set.
#[derive(Debug)]
pub enum NullableUpdate<T> {
    Absent,
    Null,
    Value(T),
}

/// A sparse partial-update payload for a [`Demon`]. Absent fields are left
/// untouched; a null `video` clears the field; present values are
/// validated before anything is applied. Only these declared fields may
/// appear in a patch request: the boundary that decodes a request body
/// rejects unknown fields before constructing this payload.
#[derive(Debug)]
pub struct PatchDemon {
    pub name: Option<String>,
    pub position: Option<i16>,
    pub requirement: Option<i16>,
    pub video: NullableUpdate<String>,
    pub verifier: Option<String>,
    pub publisher: Option<String>,
}

/// The observable state of a [`PatchDemon`].
#[verifier::ext_equal]
pub struct PatchDemonView {
    pub name: Option<Seq<char>>,
    pub position: Option<int>,
    pub requirement: Option<int>,
    pub video: NullableUpdate<Seq<char>>,
    pub verifier: Option<Seq<char>>,
    pub publisher: Option<Seq<char>>,
}

impl View for PatchDemon {
    type V = PatchDemonView;

    open spec fn view(&self) -> PatchDemonView {
        PatchDemonView {
            name: match self.name {
                Option::Some(ref n) => Option::Some(n@),
                Option::None => Option::None,
            },
            position: match self.position {
                Option::Some(p) => Option::Some(p as int),
                Option::None => Option::None,
            },
            requirement: match self.requirement {
                Option::Some(r) => Option::Some(r as int),
                Option::None => Option::None,
            },
            video: match self.video {
                NullableUpdate::Absent => NullableUpdate::Absent,
                NullableUpdate::Null => NullableUpdate::Null,
                NullableUpdate::Value(ref v) => NullableUpdate::Value(v@),
            },
            verifier: match self.verifier {
                Option::Some(ref v) => Option::Some(v@),
                Option::None => Option::None,
            },
            publisher: match self.publisher {
                Option::Some(ref p) => Option::Some(p@),
                Option::None => Option::None,
            },
        }
    }
}

/// A resource name (or player name) must not be empty.
pub open spec fn valid_name(s: Seq<char>) -> bool {
    s.len() > 0
}

/// A rank must land inside the collection: one-based, at most `len`.
pub open spec fn valid_position(p: int, len: int) -> bool {
    1 <= p <= len
}

/// A requirement is a percentage.
pub open spec fn valid_requirement(r: int) -> bool {
    0 <= r <= 100
}

/// A video link must be an `https` URL with a non-empty remainder.
pub open spec fn valid_video(s: Seq<char>) -> bool {
    s.len() > 8 && s[0] == 'h' && s[1] == 't' && s[2] == 't' && s[3] == 'p' && s[4] == 's'
        && s[5] == ':' && s[6] == '/' && s[7] == '/'
}

/// Checks one video link against [`valid_video`].
fn video_ok(v: &str) -> (r: bool)
    ensures
        r == valid_video(v@),
{
    let n = v.unicode_len();
    if n <= 8 {
        return false;
    }
    v.get_char(0) == 'h' && v.get_char(1) == 't' && v.get_char(2) == 't' && v.get_char(3) == 'p'
        && v.get_char(4) == 's' && v.get_char(5) == ':' && v.get_char(6) == '/'
        && v.get_char(7) == '/'
}

/// Every validation failure a payload produces against a collection of
/// length `len`, in declaration order of the fields. All failures are
/// collected, not only the first.
pub open spec fn patch_failures(p: PatchDemonView, len: int) -> Seq<ValidationFailure> {
    (if p.name matches Option::Some(n) && !valid_name(n) {
        seq![ValidationFailure { field: Field::Name, reason: Reason::Empty }]
    } else {
        Seq::empty()
    }) + (if p.position matches Option::Some(q) && !valid_position(q, len) {
        seq![ValidationFailure { field: Field::Position, reason: Reason::OutOfRange }]
    } else {
        Seq::empty()
    }) + (if p.requirement matches Option::Some(r) && !valid_requirement(r) {
        seq![ValidationFailure { field: Field::Requirement, reason: Reason::OutOfRange }]
    } else {
        Seq::empty()
    }) + (if p.video matches NullableUpdate::Value(v) && !valid_video(v) {
        seq![ValidationFailure { field: Field::Video, reason: Reason::Malformed }]
    } else {
        Seq::empty()
    }) + (if p.verifier matches Option::Some(v) && !valid_name(v) {
        seq![ValidationFailure { field: Field::Verifier, reason: Reason::Empty }]
    } else {
        Seq::empty()
    }) + (if p.publisher matches Option::Some(v) && !valid_name(v) {
        seq![ValidationFailure { field: Field::Publisher, reason: Reason::Empty }]
    } else {
        Seq::empty()
    })
}

/// A payload passes validation exactly when it produces no failure.
pub open spec fn patch_valid(p: PatchDemonView, len: int) -> bool {
    patch_failures(p, len).len() == 0
}

/// The state a patch payload turns a resource state into: present values
/// override, a null `video` clears, absent fields are untouched.
pub open spec fn apply_patch(d: DemonView, p: PatchDemonView) -> DemonView {
    DemonView {
        name: match p.name {
            Option::Some(n) => n,
            Option::None => d.name,
        },
        position: match p.position {
            Option::Some(q) => q,
            Option::None => d.position,
        },
        requirement: match p.requirement {
            Option::Some(r) => r,
            Option::None => d.requirement,
        },
        video: match p.video {
            NullableUpdate::Absent => d.video,
            NullableUpdate::Null => Option::None,
            NullableUpdate::Value(v) => Option::Some(v),
        },
        verifier: match p.verifier {
            Option::Some(v) => v,
            Option::None => d.verifier,
        },
        publisher: match p.publisher {
            Option::Some(v) => v,
            Option::None => d.publisher,
        },
    }
}

impl PatchDemon {
    /// Runs every present field's validator and collects all failures, in
    /// field declaration order. Pure: persisted state is never touched.
    #[verifier::rlimit(50)]
    pub fn validate(&self, len: usize) -> (errs: Vec<ValidationFailure>)
        ensures
            errs@ == patch_failures(self@, len as int),
    {
        let mut errs: Vec<ValidationFailure> = Vec::new();
        if let Option::Some(n) = &self.name {
            if n.as_str().is_empty() {
                errs.push(ValidationFailure { field: Field::Name, reason: Reason::Empty });
            }
        }
        if let Option::Some(q) = self.position {
            if !(1 <= q && q as usize <= len) {
                errs.push(ValidationFailure { field: Field::Position, reason: Reason::OutOfRange });
            }
        }
        if let Option::Some(r) = self.requirement {
            if !(0 <= r && r <= 100) {
                errs.push(ValidationFailure { field: Field::Requirement, reason: Reason::OutOfRange });
            }
        }
        if let NullableUpdate::Value(v) = &self.video {
            if !video_ok(v.as_str()) {
                errs.push(ValidationFailure { field: Field::Video, reason: Reason::Malformed });
            }
        }
        if let Option::Some(v) = &self.verifier {
            if v.as_str().is_empty() {
                errs.push(ValidationFailure { field: Field::Verifier, reason: Reason::Empty });
            }
        }
        if let Option::Some(v) = &self.publisher {
            if v.as_str().is_empty() {
                errs.push(ValidationFailure { field: Field::Publisher, reason: Reason::Empty });
            }
        }
        proof {
            assert(errs@ =~= patch_failures(self@, len as int));
        }
        errs
    }
}

/// A resource that can be patched at all declares the permissions doing so
/// requires, independent of any one target resource.
pub trait Hotfix {
    /// The requirement expression [`Self::required_permissions`] returns.
    spec fn spec_required_permissions(&self) -> PermissionsSet;

    /// The permissions a caller must hold to apply this payload.
    fn required_permissions(&self) -> (r: PermissionsSet)
        ensures
            r == self.spec_required_permissions(),
    ;
}

/// The requirement every demon mutation carries: list moderator or list
/// administrator.
pub open spec fn spec_list_mod_or_admin() -> PermissionsSet {
    PermissionsSet::Or(
        Box::new(PermissionsSet::One(Permission::ListModerator)),
        Box::new(PermissionsSet::One(Permission::ListAdministrator)),
    )
}

/// The requirement [`spec_list_mod_or_admin`] as a value.
pub fn list_mod_or_admin() -> (r: PermissionsSet)
    ensures
        r == spec_list_mod_or_admin(),
{
    PermissionsSet::Or(
        Box::new(PermissionsSet::One(Permission::ListModerator)),
        Box::new(PermissionsSet::One(Permission::ListAdministrator)),
    )
}

impl Hotfix for PatchDemon {
    open spec fn spec_required_permissions(&self) -> PermissionsSet {
        spec_list_mod_or_admin()
    }

    fn required_permissions(&self) -> (r: PermissionsSet) {
        list_mod_or_admin()
    }
}

impl Demon {
    /// Validates a payload against this resource and, when every field
    /// passes, applies all passing changes as one logical mutation. On any
    /// failure the aggregated validation error is returned and nothing is
    /// applied. A present `position` value is set here; cascading the rank
    /// change through a collection is [`crate::list::DemonList::patch`]'s
    /// job.
    pub fn patch(self, patch: PatchDemon, list_len: usize) -> (r: Result<Demon, PointercrateError>)
        ensures
            patch_valid(patch@, list_len as int) ==> (r matches Ok(d) && d@ == apply_patch(
                self@,
                patch@,
            )),
            !patch_valid(patch@, list_len as int) ==> (r matches Err(
                PointercrateError::ValidationError(errs),
            ) && errs@ == patch_failures(patch@, list_len as int)),
    {
        let errs = patch.validate(list_len);
        if errs.len() > 0 {
            return Err(PointercrateError::ValidationError(errs));
        }
        let mut d = self;
        if let Option::Some(n) = patch.name {
            d.name = n;
        }
        if let Option::Some(q) = patch.position {
            d.position = q;
        }
        if let Option::Some(r) = patch.requirement {
            d.requirement = r;
        }
        match patch.video {
            NullableUpdate::Absent => {},
            NullableUpdate::Null => {
                d.video = Option::None;
            },
            NullableUpdate::Value(v) => {
                d.video = Option::Some(v);
            },
        }
        if let Option::Some(v) = patch.verifier {
            d.verifier = v;
        }
        if let Option::Some(v) = patch.publisher {
            d.publisher = v;
        }
        proof {
            assert(d@ =~= apply_patch(self@, patch@));
        }
        Ok(d)
    }

    /// The permissions a caller needs to patch this resource with that
    /// payload.
    pub fn permissions_for(&self, _patch: &PatchDemon) -> (r: PermissionsSet)
        ensures
            r == spec_list_mod_or_admin(),
    {
        list_mod_or_admin()
    }
}

/// A demon together with its creators and approved records, as an API
/// response materializes it.
#[derive(Debug)]
pub struct DemonWithCreatorsAndRecords {
    pub demon: Demon,
    pub creators: Vec<String>,
    pub records: Vec<Record>,
}

/// The observable state of a [`DemonWithCreatorsAndRecords`].
#[verifier::ext_equal]
pub struct DemonFullView {
    pub demon: DemonView,
    pub creators: Seq<Seq<char>>,
    pub records: Seq<RecordView>,
}

impl View for DemonWithCreatorsAndRecords {
    type V = DemonFullView;

    open spec fn view(&self) -> DemonFullView {
        DemonFullView {
            demon: self.demon@,
            creators: self.creators@.map_values(|c: String| c@),
            records: self.records@.map_values(|r: Record| r@),
        }
    }
}

impl DemonWithCreatorsAndRecords {
    /// Patches the inner demon; creators and records ride along untouched.
    pub fn patch(self, patch: PatchDemon, list_len: usize) -> (r: Result<
        DemonWithCreatorsAndRecords,
        PointercrateError,
    >)
        ensures
            patch_valid(patch@, list_len as int) ==> (r matches Ok(d) && d@ == (DemonFullView {
                demon: apply_patch(self@.demon, patch@),
                ..self@
            })),
            !patch_valid(patch@, list_len as int) ==> (r matches Err(
                PointercrateError::ValidationError(errs),
            ) && errs@ == patch_failures(patch@, list_len as int)),
    {
        let DemonWithCreatorsAndRecords { demon, creators, records } = self;
        let demon = match demon.patch(patch, list_len) {
            Ok(d) => d,
            Err(e) => {
                return Err(e);
            },
        };
        let out = DemonWithCreatorsAndRecords { demon, creators, records };
        proof {
            assert(out@ =~= (DemonFullView { demon: apply_patch(self@.demon, patch@), ..self@ }));
        }
        Ok(out)
    }

    /// The permissions a caller needs to patch this resource with that
    /// payload.
    pub fn permissions_for(&self, _patch: &PatchDemon) -> (r: PermissionsSet)
        ensures
            r == spec_list_mod_or_admin(),
    {
        list_mod_or_admin()
    }
}

} // verus!
