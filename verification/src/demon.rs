//! The ranked resource type and its version token.
//!
//! A [`VersionToken`] is a deterministic fingerprint of a resource's
//! observable state: two resources with identical observable state yield
//! equal tokens, and a change to any field changes the token. A client
//! presents the token it last observed; a mismatch means the resource
//! changed underneath it (optimistic concurrency).

use vstd::prelude::*;

verus! {

/// The observable state of a [`Demon`]: every field, as a mathematical
/// value. Contracts throughout the crate speak of this view.
#[verifier::ext_equal]
pub struct DemonView {
    pub name: Seq<char>,
    pub position: int,
    pub requirement: int,
    pub video: Option<Seq<char>>,
    pub verifier: Seq<char>,
    pub publisher: Seq<char>,
}

/// A ranked resource. `position` is its rank inside its collection, dense
/// and one-based; `requirement` is a percentage; `video` is the one
/// nullable field (null means "clear").
#[derive(Debug)]
pub struct Demon {
    pub name: String,
    pub position: i16,
    pub requirement: i16,
    pub video: Option<String>,
    pub verifier: String,
    pub publisher: String,
}

impl View for Demon {
    type V = DemonView;

    open spec fn view(&self) -> DemonView {
        DemonView {
            name: self.name@,
            position: self.position as int,
            requirement: self.requirement as int,
            video: match self.video {
                Option::Some(v) => Option::Some(v@),
                Option::None => Option::None,
            },
            verifier: self.verifier@,
            publisher: self.publisher@,
        }
    }
}

impl Clone for Demon {
    fn clone(&self) -> (r: Self)
        ensures
            r == *self,
    {
        Demon {
            name: self.name.clone(),
            position: self.position,
            requirement: self.requirement,
            video: match &self.video {
                Option::Some(v) => Option::Some(v.clone()),
                Option::None => Option::None,
            },
            verifier: self.verifier.clone(),
            publisher: self.publisher.clone(),
        }
    }
}

/// An approved record on a demon: which player achieved which progress.
#[derive(Debug)]
pub struct Record {
    pub player: String,
    pub progress: i16,
}

/// The observable state of a [`Record`].
#[verifier::ext_equal]
pub struct RecordView {
    pub player: Seq<char>,
    pub progress: int,
}

impl View for Record {
    type V = RecordView;

    open spec fn view(&self) -> RecordView {
        RecordView { player: self.player@, progress: self.progress as int }
    }
}

impl Clone for Record {
    fn clone(&self) -> (r: Self)
        ensures
            r == *self,
    {
        Record { player: self.player.clone(), progress: self.progress }
    }
}

/// An opaque fingerprint of a resource's observable state, used for
/// optimistic concurrency. Derived on demand from current state, never
/// stored independently of the resource it describes.
#[derive(Debug)]
pub struct VersionToken {
    state: Demon,
}

impl View for VersionToken {
    type V = DemonView;

    closed spec fn view(&self) -> DemonView {
        self.state@
    }
}

impl Clone for VersionToken {
    fn clone(&self) -> (r: Self)
        ensures
            r == *self,
    {
        VersionToken { state: self.state.clone() }
    }
}

impl VersionToken {
    /// Whether two tokens fingerprint the same observable state.
    pub fn matches(&self, other: &VersionToken) -> (r: bool)
        ensures
            r == (self@ == other@),
    {
        let eq = self.state.name == other.state.name
            && self.state.position == other.state.position
            && self.state.requirement == other.state.requirement
            && (match (&self.state.video, &other.state.video) {
                (Option::Some(a), Option::Some(b)) => *a == *b,
                (Option::None, Option::None) => true,
                _ => false,
            })
            && self.state.verifier == other.state.verifier
            && self.state.publisher == other.state.publisher;
        proof {
            if eq {
                assert(self@ =~= other@);
            }
        }
        eq
    }
}

impl Demon {
    /// Derives the current version token of this resource. Deterministic:
    /// the token is a pure function of the observable state.
    pub fn version_token(&self) -> (t: VersionToken)
        ensures
            t@ == self@,
    {
        VersionToken { state: self.clone() }
    }
}

/// Law: deriving the token twice from the same unmutated state yields the
/// same value.
pub proof fn lemma_token_deterministic(d: Demon, t1: VersionToken, t2: VersionToken)
    requires
        t1@ == d@,
        t2@ == d@,
    ensures
        t1@ == t2@,
{
}

/// Law: a change to any field of the observable state changes the token —
/// tokens agree exactly when the states they were derived from agree.
pub proof fn lemma_mutation_changes_token(d1: Demon, d2: Demon, t1: VersionToken, t2: VersionToken)
    requires
        t1@ == d1@,
        t2@ == d2@,
    ensures
        (t1@ == t2@) <==> (d1@ == d2@),
        d1@.name != d2@.name ==> t1@ != t2@,
        d1@.position != d2@.position ==> t1@ != t2@,
        d1@.requirement != d2@.requirement ==> t1@ != t2@,
        d1@.video != d2@.video ==> t1@ != t2@,
        d1@.verifier != d2@.verifier ==> t1@ != t2@,
        d1@.publisher != d2@.publisher ==> t1@ != t2@,
{
}

} // verus!
