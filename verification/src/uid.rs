//! Entity identifiers: a kind tag plus a textual id, and the nominal
//! per-kind wrappers that the store's typed operations take.

use vstd::prelude::*;

use crate::errors::Error;

verus! {

/// The kind tag of an entity identifier.
#[derive(Clone, Copy, Debug, PartialEq, Eq, Structural)]
pub enum EntityType {
    List,
    User,
    Team,
    Application,
}

/// The target of a generic-to-typed identifier coercion.
#[derive(Clone, Copy, Debug, PartialEq, Eq, Structural)]
pub enum UidKind {
    User,
    Team,
    List,
    UserOrTeam,
}

/// Mathematical model of an entity identifier.
#[verifier::ext_equal]
pub struct UidView {
    pub kind: EntityType,
    pub id: Seq<char>,
}

/// Whether an identifier of kind `k` may be coerced to the target `target`.
pub open spec fn admits(target: UidKind, k: EntityType) -> bool {
    match target {
        UidKind::User => k == EntityType::User,
        UidKind::Team => k == EntityType::Team,
        UidKind::List => k == EntityType::List,
        UidKind::UserOrTeam => k == EntityType::User || k == EntityType::Team,
    }
}

/// Generic-to-typed coercion at the model level: the identifier passes
/// through unchanged when its kind is admitted, and is rejected otherwise.
pub open spec fn coerce(target: UidKind, v: UidView) -> Option<UidView> {
    if admits(target, v.kind) {
        Some(v)
    } else {
        None
    }
}

/// Law: the typed-to-generic-to-typed round trip is the identity on
/// identifiers of an admitted kind, and a coercion of any other kind fails.
pub proof fn lemma_kind_round_trip(target: UidKind, v: UidView)
    ensures
        admits(target, v.kind) ==> coerce(target, v) == Some(v),
        !admits(target, v.kind) ==> coerce(target, v) is None,
{
}

/// An entity identifier: an entity kind together with a unique textual id.
#[derive(Debug)]
pub struct EntityUid {
    kind: EntityType,
    id: String,
}

impl View for EntityUid {
    type V = UidView;

    closed spec fn view(&self) -> UidView {
        UidView { kind: self.kind, id: self.id@ }
    }
}

impl EntityUid {
    pub fn new(kind: EntityType, id: String) -> (r: EntityUid)
        ensures
            r@ == (UidView { kind, id: id@ }),
    {
        EntityUid { kind, id }
    }

    pub fn kind(&self) -> (r: EntityType)
        ensures
            r == self@.kind,
    {
        self.kind
    }

    pub fn id(&self) -> (r: &String)
        ensures
            r@ == self@.id,
    {
        &self.id
    }
}

impl Clone for EntityUid {
    fn clone(&self) -> (r: Self)
        ensures
            r@ == self@,
    {
        EntityUid { kind: self.kind, id: self.id.clone() }
    }
}

impl PartialEq for EntityUid {
    fn eq(&self, other: &Self) -> bool {
        self.kind == other.kind && self.id == other.id
    }
}

impl vstd::std_specs::cmp::PartialEqSpecImpl for EntityUid {
    open spec fn obeys_eq_spec() -> bool {
        true
    }

    open spec fn eq_spec(&self, other: &Self) -> bool {
        self@ == other@
    }
}

/// An identifier statically known to name a user.
#[derive(Debug)]
pub struct UserUid(EntityUid);

impl View for UserUid {
    type V = UidView;

    closed spec fn view(&self) -> UidView {
        self.0@
    }
}

impl Clone for UserUid {
    fn clone(&self) -> (r: Self)
        ensures
            r@ == self@,
    {
        UserUid(self.0.clone())
    }
}

impl UserUid {
    /// The kind invariant this wrapper maintains.
    pub open spec fn wf(&self) -> bool {
        self@.kind == EntityType::User
    }

    /// Generic-to-typed conversion; fails with a kind mismatch unless the
    /// identifier carries the user kind.
    pub fn try_from_euid(e: EntityUid) -> (r: Result<UserUid, Error>)
        ensures
            match r {
                Ok(u) => coerce(UidKind::User, e@) == Some(u@) && u@ == e@ && u.wf(),
                Err(err) => coerce(UidKind::User, e@) is None && err == (Error::KindMismatch {
                    expected: UidKind::User,
                    got: e@.kind,
                }),
            },
    {
        if e.kind() == EntityType::User {
            Ok(UserUid(e))
        } else {
            Err(Error::KindMismatch { expected: UidKind::User, got: e.kind() })
        }
    }

    /// Typed-to-generic conversion; infallible.
    pub fn into_euid(self) -> (r: EntityUid)
        ensures
            r@ == self@,
    {
        self.0
    }

    pub fn as_euid(&self) -> (r: &EntityUid)
        ensures
            r@ == self@,
    {
        &self.0
    }
}

/// An identifier statically known to name a team.
#[derive(Debug)]
pub struct TeamUid(EntityUid);

impl View for TeamUid {
    type V = UidView;

    closed spec fn view(&self) -> UidView {
        self.0@
    }
}

impl Clone for TeamUid {
    fn clone(&self) -> (r: Self)
        ensures
            r@ == self@,
    {
        TeamUid(self.0.clone())
    }
}

impl TeamUid {
    /// The kind invariant this wrapper maintains.
    pub open spec fn wf(&self) -> bool {
        self@.kind == EntityType::Team
    }

    /// Generic-to-typed conversion; fails with a kind mismatch unless the
    /// identifier carries the team kind.
    pub fn try_from_euid(e: EntityUid) -> (r: Result<TeamUid, Error>)
        ensures
            match r {
                Ok(t) => coerce(UidKind::Team, e@) == Some(t@) && t@ == e@ && t.wf(),
                Err(err) => coerce(UidKind::Team, e@) is None && err == (Error::KindMismatch {
                    expected: UidKind::Team,
                    got: e@.kind,
                }),
            },
    {
        if e.kind() == EntityType::Team {
            Ok(TeamUid(e))
        } else {
            Err(Error::KindMismatch { expected: UidKind::Team, got: e.kind() })
        }
    }

    /// Typed-to-generic conversion; infallible.
    pub fn into_euid(self) -> (r: EntityUid)
        ensures
            r@ == self@,
    {
        self.0
    }

    pub fn as_euid(&self) -> (r: &EntityUid)
        ensures
            r@ == self@,
    {
        &self.0
    }
}

/// An identifier statically known to name a todo list.
#[derive(Debug)]
pub struct ListUid(EntityUid);

impl View for ListUid {
    type V = UidView;

    closed spec fn view(&self) -> UidView {
        self.0@
    }
}

impl Clone for ListUid {
    fn clone(&self) -> (r: Self)
        ensures
            r@ == self@,
    {
        ListUid(self.0.clone())
    }
}

impl ListUid {
    /// The kind invariant this wrapper maintains.
    pub open spec fn wf(&self) -> bool {
        self@.kind == EntityType::List
    }

    /// Generic-to-typed conversion; fails with a kind mismatch unless the
    /// identifier carries the list kind.
    pub fn try_from_euid(e: EntityUid) -> (r: Result<ListUid, Error>)
        ensures
            match r {
                Ok(l) => coerce(UidKind::List, e@) == Some(l@) && l@ == e@ && l.wf(),
                Err(err) => coerce(UidKind::List, e@) is None && err == (Error::KindMismatch {
                    expected: UidKind::List,
                    got: e@.kind,
                }),
            },
    {
        if e.kind() == EntityType::List {
            Ok(ListUid(e))
        } else {
            Err(Error::KindMismatch { expected: UidKind::List, got: e.kind() })
        }
    }

    /// Typed-to-generic conversion; infallible.
    pub fn into_euid(self) -> (r: EntityUid)
        ensures
            r@ == self@,
    {
        self.0
    }

    pub fn as_euid(&self) -> (r: &EntityUid)
        ensures
            r@ == self@,
    {
        &self.0
    }
}

/// An identifier statically known to name either a user or a team.
#[derive(Debug)]
pub struct UserOrTeamUid(EntityUid);

impl View for UserOrTeamUid {
    type V = UidView;

    closed spec fn view(&self) -> UidView {
        self.0@
    }
}

impl Clone for UserOrTeamUid {
    fn clone(&self) -> (r: Self)
        ensures
            r@ == self@,
    {
        UserOrTeamUid(self.0.clone())
    }
}

impl UserOrTeamUid {
    /// The kind invariant this wrapper maintains.
    pub open spec fn wf(&self) -> bool {
        self@.kind == EntityType::User || self@.kind == EntityType::Team
    }

    /// Generic-to-typed conversion; fails with a kind mismatch unless the
    /// identifier carries the user or the team kind.
    pub fn try_from_euid(e: EntityUid) -> (r: Result<UserOrTeamUid, Error>)
        ensures
            match r {
                Ok(p) => coerce(UidKind::UserOrTeam, e@) == Some(p@) && p@ == e@ && p.wf(),
                Err(err) => coerce(UidKind::UserOrTeam, e@) is None && err == (Error::KindMismatch {
                    expected: UidKind::UserOrTeam,
                    got: e@.kind,
                }),
            },
    {
        if e.kind() == EntityType::User || e.kind() == EntityType::Team {
            Ok(UserOrTeamUid(e))
        } else {
            Err(Error::KindMismatch { expected: UidKind::UserOrTeam, got: e.kind() })
        }
    }

    /// A user id is in particular a user-or-team id.
    pub fn from_user(u: UserUid) -> (r: UserOrTeamUid)
        ensures
            r@ == u@,
            u.wf() ==> r.wf(),
    {
        UserOrTeamUid(u.into_euid())
    }

    /// A team id is in particular a user-or-team id.
    pub fn from_team(t: TeamUid) -> (r: UserOrTeamUid)
        ensures
            r@ == t@,
            t.wf() ==> r.wf(),
    {
        UserOrTeamUid(t.into_euid())
    }

    /// Typed-to-generic conversion; infallible.
    pub fn into_euid(self) -> (r: EntityUid)
        ensures
            r@ == self@,
    {
        self.0
    }

    pub fn as_euid(&self) -> (r: &EntityUid)
        ensures
            r@ == self@,
    {
        &self.0
    }
}

} // verus!
