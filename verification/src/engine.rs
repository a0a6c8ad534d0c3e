//! The trusted boundary to the policy engine. Everything the library asks
//! of the engine crate goes through the declarations and wrappers below;
//! their contracts are believed, not proved, and each doc comment names the
//! outside item relied on.

use std::str::FromStr;

use cedar_policy::EntityUid as CedarEntityUid;
use vstd::multiset::Multiset;
use vstd::prelude::*;

use crate::objects::{ListView, TeamView, UserView};
use crate::uid::UidView;

verus! {

#[verifier::external_type_specification]
#[verifier::external_body]
pub struct ExPolicySet(cedar_policy::PolicySet);

#[verifier::external_type_specification]
#[verifier::external_body]
pub struct ExSchema(cedar_policy::Schema);

#[verifier::external_type_specification]
#[verifier::external_body]
pub struct ExEntities(cedar_policy::Entities);

#[verifier::external_type_specification]
#[verifier::external_body]
pub struct ExEntity(cedar_policy::Entity);

#[verifier::external_type_specification]
#[verifier::external_body]
pub struct ExCedarUid(CedarEntityUid);

/// The engine form of an identifier: a pure function of its view.
pub uninterp spec fn cedar_uid_of(v: UidView) -> CedarEntityUid;

/// The engine form of a user: a pure function of the user's view.
pub uninterp spec fn user_entity_of(u: UserView) -> cedar_policy::Entity;

/// The engine form of a team: a pure function of the team's view.
pub uninterp spec fn team_entity_of(t: TeamView) -> cedar_policy::Entity;

/// The engine form of a list: a pure function of the list's view.
pub uninterp spec fn list_entity_of(l: ListView) -> cedar_policy::Entity;

/// The engine form of the application singleton: a pure function of its id.
pub uninterp spec fn app_entity_of(a: UidView) -> cedar_policy::Entity;

/// What the engine makes of an entity sequence under a schema: `Some` of
/// the collected set when every entity conforms to the schema and no uid
/// repeats, `None` when it rejects the sequence. A pure function of its
/// arguments.
pub uninterp spec fn cedar_entities_of(
    es: Seq<cedar_policy::Entity>,
    schema: cedar_policy::Schema,
) -> Option<cedar_policy::Entities>;

/// The engine's answer to a request: whether it allows, the ids of the
/// policies that contributed to the decision, and the evaluation errors.
/// A pure function of its arguments: the engine reads no clock, store or
/// environment. The contributing ids are a multiset, not a sequence: the
/// engine keeps them in a hash set and hands them back in no fixed order,
/// so only their collection is a function of the request. The errors are
/// ordered: the engine reports them in the policy set's insertion order.
pub uninterp spec fn cedar_decision(
    principal: CedarEntityUid,
    action: Seq<char>,
    resource: CedarEntityUid,
    policies: cedar_policy::PolicySet,
    entities: cedar_policy::Entities,
) -> (bool, Multiset<Seq<char>>, Seq<Seq<char>>);

/// Relies on `cedar_policy::EntityUid::from_type_name_and_id` (with
/// `EntityTypeName::from_str` and `EntityId::new`): renders an identifier in
/// the engine's form, a pure function of the identifier named
/// `cedar_uid_of`. The four kind names are valid normalized type names, so
/// the parse cannot fail, and `EntityId::new` accepts any string.
#[verifier::external_body]
pub(crate) fn to_cedar_uid(e: &crate::uid::EntityUid) -> (r: CedarEntityUid)
    ensures
        r == cedar_uid_of(e@),
{
    let name = match e.kind() {
        crate::uid::EntityType::User => "User",
        crate::uid::EntityType::Team => "Team",
        crate::uid::EntityType::List => "List",
        crate::uid::EntityType::Application => "Application",
    };
    let ty = cedar_policy::EntityTypeName::from_str(name).unwrap();
    cedar_policy::EntityUid::from_type_name_and_id(ty, cedar_policy::EntityId::new(e.id().as_str()))
}

/// Relies on `cedar_policy::Entity::new`: builds the engine form of a user
/// — named `user_entity_of` — with the joined teams as parents and no
/// attributes. `Entity::new` can only fail when an attribute needs
/// extension evaluation; none does here.
#[verifier::external_body]
pub(crate) fn user_entity(u: &crate::objects::User) -> (r: cedar_policy::Entity)
    ensures
        r == user_entity_of(u@),
{
    let parents = u.teams().iter().map(|t| to_cedar_uid(t.as_euid())).collect();
    cedar_policy::Entity::new(to_cedar_uid(u.uid().as_euid()), std::collections::HashMap::new(),
        parents).unwrap()
}

/// Relies on `cedar_policy::Entity::new`: builds the engine form of a team
/// — named `team_entity_of` — with the parent teams as parents and no
/// attributes. `Entity::new` can only fail when an attribute needs
/// extension evaluation; none does here.
#[verifier::external_body]
pub(crate) fn team_entity(t: &crate::objects::Team) -> (r: cedar_policy::Entity)
    ensures
        r == team_entity_of(t@),
{
    let parents = t.parents().iter().map(|p| to_cedar_uid(p.as_euid())).collect();
    cedar_policy::Entity::new(to_cedar_uid(t.uid().as_euid()), std::collections::HashMap::new(),
        parents).unwrap()
}

/// Relies on `cedar_policy::Entity::new` and `RestrictedExpression`: builds
/// the engine form of a list — named `list_entity_of` — with owner, name,
/// readers and editors as attributes. `Entity::new` can only fail when an
/// attribute needs extension evaluation; strings and entity references do
/// not.
#[verifier::external_body]
pub(crate) fn list_entity(l: &crate::objects::List) -> (r: cedar_policy::Entity)
    ensures
        r == list_entity_of(l@),
{
    let attrs = std::collections::HashMap::from([
        ("owner".to_string(), cedar_policy::RestrictedExpression::new_entity_uid(to_cedar_uid(
            l.owner().as_euid()))),
        ("name".to_string(), cedar_policy::RestrictedExpression::new_string(l.name().clone())),
        ("readers".to_string(), cedar_policy::RestrictedExpression::new_entity_uid(to_cedar_uid(
            l.readers().as_euid()))),
        ("editors".to_string(), cedar_policy::RestrictedExpression::new_entity_uid(to_cedar_uid(
            l.editors().as_euid()))),
    ]);
    cedar_policy::Entity::new(to_cedar_uid(l.uid().as_euid()), attrs,
        std::collections::HashSet::new()).unwrap()
}

/// Relies on `cedar_policy::Entity::with_uid`: builds the engine form of
/// the application singleton — named `app_entity_of` — with no attributes
/// and no parents.
#[verifier::external_body]
pub(crate) fn app_entity(a: &crate::objects::Application) -> (r: cedar_policy::Entity)
    ensures
        r == app_entity_of(a@),
{
    cedar_policy::Entity::with_uid(to_cedar_uid(a.euid()))
}

/// Relies on `cedar_policy::Entities::from_entities`: collects the entities
/// into the engine's set form, validated against the schema — named
/// `cedar_entities_of`, which is `None` exactly when the engine rejects.
/// It fails when a uid is duplicated or an entity does not conform to the
/// schema; the engine's message is returned as the error.
#[verifier::external_body]
pub(crate) fn entities_from(es: Vec<cedar_policy::Entity>, schema: &cedar_policy::Schema) -> (r:
    Result<cedar_policy::Entities, String>)
    ensures
        match r {
            Ok(ents) => cedar_entities_of(es@, *schema) == Some(ents),
            Err(_) => cedar_entities_of(es@, *schema) is None,
        },
{
    cedar_policy::Entities::from_entities(es, Some(schema)).map_err(|e| e.to_string())
}

/// Relies on `cedar_policy::Authorizer::is_authorized` (with
/// `Request::new` and `Context::empty`): evaluates the request
/// `(principal, action, resource, empty context)` against the policies and
/// entities. Returns whether the decision was an allow, the ids of the
/// policies that contributed to the decision, and any evaluation errors —
/// the three components of `cedar_decision`, a pure function of the
/// request, the policies and the entities. The contributing ids come out
/// of a hash set, whose walk order is no function of the inputs, so only
/// their multiset is stated. `Request::new` cannot fail when no schema is
/// supplied.
#[verifier::external_body]
pub(crate) fn decide(
    principal: &CedarEntityUid,
    action: &str,
    resource: &CedarEntityUid,
    policies: &cedar_policy::PolicySet,
    entities: &cedar_policy::Entities,
) -> (r: (bool, Vec<String>, Vec<String>))
    ensures
        r.0 == cedar_decision(*principal, action@, *resource, *policies, *entities).0,
        r.1.deep_view().to_multiset() == cedar_decision(*principal, action@, *resource, *policies,
            *entities).1,
        r.2.deep_view() == cedar_decision(*principal, action@, *resource, *policies, *entities).2,
{
    let act = cedar_policy::EntityUid::from_type_name_and_id(cedar_policy::EntityTypeName::from_str(
        "Action").unwrap(), cedar_policy::EntityId::new(action));
    let req = cedar_policy::Request::new(principal.clone(), act, resource.clone(),
        cedar_policy::Context::empty(), None).unwrap();
    let resp = cedar_policy::Authorizer::new().is_authorized(&req, policies, entities);
    let reasons = resp.diagnostics().reason().map(|p| p.to_string()).collect();
    let errors = resp.diagnostics().errors().map(|e| e.to_string()).collect();
    (matches!(resp.decision(), cedar_policy::Decision::Allow), reasons, errors)
}

} // verus!
