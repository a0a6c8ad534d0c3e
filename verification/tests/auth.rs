//! The authorization gateway against the real policy engine: minted proofs,
//! denials with diagnostics, and snapshot completeness.

use std::str::FromStr;

use cedar_policy::{PolicySet, Schema};

use tinytodo_types::actions::{CreateList, CreateTask, EditShare, GetList, GetLists};
use tinytodo_types::entitystore::{EntityStore, SealedBundle, UserOrTeamMut};
use tinytodo_types::errors::Error;
use tinytodo_types::objects::{List, Task, Team, User};
use tinytodo_types::uid::{EntityType, EntityUid, ListUid, TeamUid, UserOrTeamUid, UserUid};
use tinytodo_types::witnesses::{is_authorized, AuthWitness};
use tinytodo_types::witnesses;

const SCHEMA_SRC: &str = "entity Application;\n\
    entity Team in [Team];\n\
    entity User in [Team];\n\
    entity List = { owner: User, name: String, readers: Team, editors: Team };\n";

fn schema() -> Schema {
    Schema::from_cedarschema_str(SCHEMA_SRC).unwrap().0
}

/// A caller-side capability for preparing stores; the minted witnesses are
/// what these tests are about.
struct Setup;

impl witnesses::CreateUser for Setup {}

impl witnesses::CreateTeam for Setup {}

impl witnesses::CreateList for Setup {}

impl witnesses::ReadAll for Setup {}

impl witnesses::ReadTeam for Setup {}

impl witnesses::ReadList for Setup {}

fn user_uid(id: &str) -> UserUid {
    UserUid::try_from_euid(EntityUid::new(EntityType::User, id.to_string())).unwrap()
}

fn team_uid(id: &str) -> TeamUid {
    TeamUid::try_from_euid(EntityUid::new(EntityType::Team, id.to_string())).unwrap()
}

fn list_uid(id: &str) -> ListUid {
    ListUid::try_from_euid(EntityUid::new(EntityType::List, id.to_string())).unwrap()
}

#[test]
fn create_and_read_list() {
    let mut store = EntityStore::default();
    let schema = schema();
    let policies = PolicySet::from_str(
        "permit(principal == User::\"alice\", action == Action::\"CreateList\", \
         resource == Application::\"TinyTodo\");\n\
         permit(principal == User::\"alice\", action == Action::\"GetList\", \
         resource == List::\"0\");",
    )
    .unwrap();
    let alice = EntityUid::new(EntityType::User, "alice".to_string());
    let app = EntityUid::new(EntityType::Application, "TinyTodo".to_string());

    let bundle = store.as_entities(&schema).unwrap();
    let create: AuthWitness<CreateList> =
        is_authorized(&alice, &app, bundle, &policies).unwrap();

    let fresh = store.fresh_euid(EntityType::List);
    assert_eq!(fresh.id().as_str(), "0");
    assert_eq!(fresh.kind(), EntityType::List);
    store.insert_user(User::new(user_uid("alice"), "Alice".to_string(), vec![]), Setup);
    store.insert_team(Team::new(team_uid("r0"), "readers of 0".to_string(), vec![]), &Setup);
    store.insert_team(Team::new(team_uid("e0"), "editors of 0".to_string(), vec![]), &Setup);
    let list = List::new(
        ListUid::try_from_euid(fresh).unwrap(),
        user_uid("alice"),
        "Alice's list".to_string(),
        vec![],
        UserOrTeamUid::from_team(team_uid("r0")),
        UserOrTeamUid::from_team(team_uid("e0")),
    );
    store.insert_list(list, create);

    let l0 = EntityUid::new(EntityType::List, "0".to_string());
    let bundle = store.as_entities(&schema).unwrap();
    let read: AuthWitness<GetList> = is_authorized(&alice, &l0, bundle, &policies).unwrap();
    let got = store.get_list(&list_uid("0"), &read).unwrap();
    assert_eq!(got.name().as_str(), "Alice's list");
    assert_eq!(got.owner().as_euid().id().as_str(), "alice");
}

#[test]
fn forbidden_get_list_is_denied_with_diagnostics() {
    let store = EntityStore::default();
    let schema = schema();
    let policies = PolicySet::from_str(
        "forbid(principal == User::\"bob\", action == Action::\"GetList\", \
         resource == List::\"0\");",
    )
    .unwrap();
    let bob = EntityUid::new(EntityType::User, "bob".to_string());
    let l0 = EntityUid::new(EntityType::List, "0".to_string());
    let bundle = store.as_entities(&schema).unwrap();
    let r: Result<AuthWitness<GetList>, Error> = is_authorized(&bob, &l0, bundle, &policies);
    match r {
        Err(Error::AuthDenied(d)) => {
            assert!(d.reasons.iter().any(|p| p.contains("policy0")));
        },
        _ => panic!("expected auth-denied"),
    }
}

#[test]
fn unmatched_permit_is_denied() {
    let store = EntityStore::default();
    let schema = schema();
    let policies = PolicySet::from_str(
        "permit(principal == User::\"alice\", action == Action::\"GetList\", \
         resource == List::\"0\");",
    )
    .unwrap();
    let bob = EntityUid::new(EntityType::User, "bob".to_string());
    let l0 = EntityUid::new(EntityType::List, "0".to_string());
    let bundle = store.as_entities(&schema).unwrap();
    let r: Result<AuthWitness<GetList>, Error> = is_authorized(&bob, &l0, bundle, &policies);
    assert!(matches!(r, Err(Error::AuthDenied(_))));
}

#[test]
fn edit_share_proof_serves_both_sides() {
    let mut store = EntityStore::default();
    let schema = schema();
    store.insert_user(User::new(user_uid("alice"), "Alice".to_string(), vec![]), Setup);
    store.insert_team(Team::new(team_uid("r0"), "readers of 0".to_string(), vec![]), &Setup);
    store.insert_team(Team::new(team_uid("e0"), "editors of 0".to_string(), vec![]), &Setup);
    store.insert_list(
        List::new(
            list_uid("0"),
            user_uid("alice"),
            "shared".to_string(),
            vec![],
            UserOrTeamUid::from_team(team_uid("r0")),
            UserOrTeamUid::from_team(team_uid("e0")),
        ),
        Setup,
    );
    let policies = PolicySet::from_str(
        "permit(principal == User::\"alice\", action == Action::\"EditShare\", \
         resource == List::\"0\");",
    )
    .unwrap();
    let alice = EntityUid::new(EntityType::User, "alice".to_string());
    let l0 = EntityUid::new(EntityType::List, "0".to_string());
    let bundle = store.as_entities(&schema).unwrap();
    let share: AuthWitness<EditShare> = is_authorized(&alice, &l0, bundle, &policies).unwrap();

    // One authorization: inspect the list, then mutate the reader team.
    let readers = store.get_list(&list_uid("0"), &share).unwrap().readers().clone();
    match store.get_user_or_team_mut(&readers, share).unwrap() {
        UserOrTeamMut::Team(t) => t.insert_parent(UserOrTeamUid::from_team(team_uid("everyone"))),
        UserOrTeamMut::User(_) => panic!("expected the reader team"),
    }
    let got = store.get_team(&team_uid("r0"), Setup).unwrap();
    assert_eq!(got.parents().len(), 1);
}

#[test]
fn get_lists_proof_unseals_a_bundle() {
    let mut store = EntityStore::default();
    let schema = schema();
    store.insert_user(User::new(user_uid("alice"), "Alice".to_string(), vec![]), Setup);
    let policies = PolicySet::from_str(
        "permit(principal == User::\"alice\", action == Action::\"GetLists\", \
         resource == Application::\"TinyTodo\");",
    )
    .unwrap();
    let alice = EntityUid::new(EntityType::User, "alice".to_string());
    let app = EntityUid::new(EntityType::Application, "TinyTodo".to_string());
    let bundle = store.as_entities(&schema).unwrap();
    let read_all: AuthWitness<GetLists> =
        is_authorized(&alice, &app, bundle, &policies).unwrap();

    // Snapshot completeness: the bundle certifies the same identifiers the
    // store enumerates at snapshot time.
    let bundle: SealedBundle = store.as_entities(&schema).unwrap();
    let of_bundle: Vec<(EntityType, String)> =
        bundle.euids(&read_all).iter().map(|e| (e.kind(), e.id().clone())).collect();
    let of_store: Vec<(EntityType, String)> =
        store.euids(&read_all).iter().map(|e| (e.kind(), e.id().clone())).collect();
    assert_eq!(of_bundle, of_store);
    assert!(of_store.contains(&(EntityType::User, "alice".to_string())));
    assert!(of_store.contains(&(EntityType::Application, "TinyTodo".to_string())));

    // The proof also unseals the engine-form snapshot itself.
    let _entities: cedar_policy::Entities = bundle.unwrap(read_all);
}

#[test]
fn create_task_proof_writes_the_list() {
    let mut store = EntityStore::default();
    let schema = schema();
    store.insert_user(User::new(user_uid("alice"), "Alice".to_string(), vec![]), Setup);
    store.insert_team(Team::new(team_uid("r"), "readers".to_string(), vec![]), &Setup);
    store.insert_team(Team::new(team_uid("e"), "editors".to_string(), vec![]), &Setup);
    store.insert_list(
        List::new(
            list_uid("0"),
            user_uid("alice"),
            "chores".to_string(),
            vec![],
            UserOrTeamUid::from_team(team_uid("r")),
            UserOrTeamUid::from_team(team_uid("e")),
        ),
        Setup,
    );
    let policies = PolicySet::from_str(
        "permit(principal == User::\"alice\", action == Action::\"CreateTask\", \
         resource == List::\"0\");",
    )
    .unwrap();
    let alice = EntityUid::new(EntityType::User, "alice".to_string());
    let l0 = EntityUid::new(EntityType::List, "0".to_string());
    let bundle = store.as_entities(&schema).unwrap();
    let write: AuthWitness<CreateTask> = is_authorized(&alice, &l0, bundle, &policies).unwrap();
    store
        .get_list_mut(&list_uid("0"), &write)
        .unwrap()
        .push_task(Task { id: 0, description: "sweep".to_string(), done: false });
    let got = store.get_list(&list_uid("0"), &Setup).unwrap();
    assert_eq!(got.tasks().len(), 1);
    assert_eq!(got.tasks()[0].description.as_str(), "sweep");
}

#[test]
fn snapshot_the_schema_cannot_accept_is_rejected() {
    let mut store = EntityStore::default();
    // This schema gives lists no attributes, so the snapshot of a store
    // with a list does not conform to it.
    let (bare, _) = Schema::from_cedarschema_str(
        "entity Application;\nentity Team;\nentity User;\nentity List;\n",
    )
    .unwrap();
    store.insert_user(User::new(user_uid("alice"), "Alice".to_string(), vec![]), Setup);
    store.insert_team(Team::new(team_uid("r"), "readers".to_string(), vec![]), &Setup);
    store.insert_team(Team::new(team_uid("e"), "editors".to_string(), vec![]), &Setup);
    store.insert_list(
        List::new(
            list_uid("0"),
            user_uid("alice"),
            "todo".to_string(),
            vec![],
            UserOrTeamUid::from_team(team_uid("r")),
            UserOrTeamUid::from_team(team_uid("e")),
        ),
        Setup,
    );
    match store.as_entities(&bare) {
        Err(Error::SnapshotRejected(msg)) => assert!(!msg.is_empty()),
        _ => panic!("expected the snapshot to be rejected"),
    }
}
