//! Capability proofs. A proof certifies that the policy engine has allowed
//! one specific action; the store's operations demand the proofs below. The
//! only public producer of proofs is [`is_authorized`]: the constructor of
//! [`AuthWitness`] is private to this module.

use core::marker::PhantomData;
use vstd::prelude::*;

use crate::engine;
use crate::entitystore::SealedBundle;
use crate::errors::{Diagnostics, Error};
use crate::uid::EntityUid;

verus! {

/// The right to read one list.
pub trait ReadList {}

/// The right to mutate one list, its metadata or its tasks.
pub trait WriteList {}

/// The right to delete the resource that was just authorized.
pub trait Delete {}

/// The right to read one user.
pub trait ReadUser {}

/// The right to mutate one user.
pub trait WriteUser {}

/// The right to read one team.
pub trait ReadTeam {}

/// The right to mutate one team.
pub trait WriteTeam {}

/// The right to mutate either a user or a team (sharing edits).
pub trait WriteTeamUser {}

/// The right to read every entity; required to unseal a bundle.
pub trait ReadAll {}

/// The right to insert a new user.
pub trait CreateUser {}

/// The right to insert a new list.
pub trait CreateList {}

/// The right to insert a new team.
pub trait CreateTeam {}

/// An action the policy engine recognizes, together with the fixed
/// identifier under which policies refer to it.
pub trait Action {
    spec fn name_spec() -> Seq<char>;

    fn name() -> (r: &'static str)
        ensures
            r@ == Self::name_spec(),
    ;
}

/// A capability proof tagged with the action that was allowed. Carries no
/// runtime data; it cannot be constructed outside this module.
pub struct AuthWitness<A> {
    marker: PhantomData<A>,
}

/// The gateway's private read-all proof, used only to unseal its own bundle.
struct InternalProof;

impl ReadAll for InternalProof {}

/// The authorization gateway: the single capability-minting operation.
///
/// Builds a request for action `A` with the given principal and resource and
/// an empty context, unseals the bundle with a private read-all proof, and
/// asks the policy engine for a decision against the supplied policies. A
/// proof tagged with `A` is minted exactly when the engine allows the
/// request built from those components and the bundle's snapshot; a denial
/// carries exactly the engine's diagnostics — the contributing policy ids
/// as a collection (the engine fixes no order for them) and the evaluation
/// errors in the engine's order.
pub fn is_authorized<A: Action>(
    principal: &EntityUid,
    resource: &EntityUid,
    entities: SealedBundle,
    policies: &cedar_policy::PolicySet,
) -> (r: Result<AuthWitness<A>, Error>)
    ensures
        ({
            let d = engine::cedar_decision(engine::cedar_uid_of(principal@), A::name_spec(),
                engine::cedar_uid_of(resource@), *policies, entities.entities_spec());
            &&& (r is Ok) == d.0
            &&& r is Err ==> (r->Err_0 matches Error::AuthDenied(diag)
                && diag@.reasons.to_multiset() == d.1 && diag@.errors == d.2)
        }),
{
    let p = engine::to_cedar_uid(principal);
    let res = engine::to_cedar_uid(resource);
    let cedar_entities = entities.unwrap(InternalProof);
    let (allow, reasons, errors) = engine::decide(&p, A::name(), &res, policies,
        &cedar_entities);
    if allow {
        Ok(AuthWitness { marker: PhantomData })
    } else {
        Err(Error::AuthDenied(Diagnostics { reasons, errors }))
    }
}

} // verus!
