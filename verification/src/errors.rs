//! Error values returned by the store and the authorization gateway.

use vstd::prelude::*;

use crate::uid::{EntityType, EntityUid, UidKind};

verus! {

/// Model of the engine diagnostics carried with a denial.
#[verifier::ext_equal]
pub struct DiagnosticsView {
    pub reasons: Seq<Seq<char>>,
    pub errors: Seq<Seq<char>>,
}

/// Diagnostics reported by the policy engine alongside a decision: the ids
/// of the policies that contributed, and any evaluation errors.
#[derive(Debug)]
pub struct Diagnostics {
    pub reasons: Vec<String>,
    pub errors: Vec<String>,
}

impl View for Diagnostics {
    type V = DiagnosticsView;

    open spec fn view(&self) -> DiagnosticsView {
        DiagnosticsView { reasons: self.reasons.deep_view(), errors: self.errors.deep_view() }
    }
}

/// Errors returned by the store and the authorization gateway. All errors
/// are values; nothing in the library panics.
#[derive(Debug)]
pub enum Error {
    /// The identifier did not resolve in any of the store's mappings.
    NoSuchEntity(EntityUid),
    /// An identifier of one kind was coerced towards an incompatible kind.
    KindMismatch { expected: UidKind, got: EntityType },
    /// The policy engine denied the request; carries its diagnostics.
    AuthDenied(Diagnostics),
    /// The policy engine rejected the entity snapshot it was handed, so no
    /// decision could be made; carries the engine's message.
    SnapshotRejected(String),
}

/// Failure to decode an entity from the policy engine's form.
#[derive(Debug)]
pub enum EntityDecodeError {
    /// A required attribute was missing.
    MissingAttr(&'static str),
    /// Evaluation of an attribute value failed; carries the engine's message.
    Eval(String),
    /// A field was wrongly typed: the field, and the type that was expected.
    WrongType(&'static str, &'static str),
    /// An enumeration value was outside the recognized set.
    BadEnum { enumeration: &'static str, got: String },
}

} // verus!
