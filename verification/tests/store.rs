//! Store behaviour: inserts, reads, deletes, identifier minting and kind
//! conversion, exercised with locally implemented capability markers.

use tinytodo_types::entitystore::{EntityStore, UserOrTeamMut};
use tinytodo_types::errors::Error;
use tinytodo_types::objects::{List, Task, Team, User};
use tinytodo_types::uid::{EntityType, EntityUid, ListUid, TeamUid, UidKind, UserOrTeamUid, UserUid};
use tinytodo_types::witnesses;

/// A caller-side capability for store-level tests; the gateway is
/// exercised separately.
struct AllPowers;

impl witnesses::CreateUser for AllPowers {}

impl witnesses::CreateTeam for AllPowers {}

impl witnesses::CreateList for AllPowers {}

impl witnesses::Delete for AllPowers {}

impl witnesses::ReadUser for AllPowers {}

impl witnesses::WriteUser for AllPowers {}

impl witnesses::ReadTeam for AllPowers {}

impl witnesses::WriteTeam for AllPowers {}

impl witnesses::ReadList for AllPowers {}

impl witnesses::WriteList for AllPowers {}

impl witnesses::WriteTeamUser for AllPowers {}

impl witnesses::ReadAll for AllPowers {}

fn user_uid(id: &str) -> UserUid {
    UserUid::try_from_euid(EntityUid::new(EntityType::User, id.to_string())).unwrap()
}

fn team_uid(id: &str) -> TeamUid {
    TeamUid::try_from_euid(EntityUid::new(EntityType::Team, id.to_string())).unwrap()
}

fn list_uid(id: &str) -> ListUid {
    ListUid::try_from_euid(EntityUid::new(EntityType::List, id.to_string())).unwrap()
}

// Install the entities a list built by `sample_list` refers to, so that
// inserts stay within the store's reference-soundness expectations.
fn seed_list_refs(store: &mut EntityStore, owner: &str) {
    store.insert_user(User::new(user_uid(owner), owner.to_string(), vec![]), AllPowers);
    store.insert_team(Team::new(team_uid("readers"), "readers".to_string(), vec![]), &AllPowers);
    store.insert_team(Team::new(team_uid("editors"), "editors".to_string(), vec![]), &AllPowers);
}

fn sample_list(id: &str, owner: &str, name: &str) -> List {
    List::new(
        list_uid(id),
        user_uid(owner),
        name.to_string(),
        vec![],
        UserOrTeamUid::from_team(team_uid("readers")),
        UserOrTeamUid::from_team(team_uid("editors")),
    )
}

#[test]
fn insert_then_get_returns_equal_user() {
    let mut store = EntityStore::default();
    let u = User::new(user_uid("alice"), "Alice".to_string(), vec![]);
    store.insert_user(u, AllPowers);
    let got = store.get_user(&user_uid("alice"), AllPowers).unwrap();
    assert_eq!(got.name().as_str(), "Alice");
    assert_eq!(got.uid().as_euid().id().as_str(), "alice");
    assert_eq!(got.uid().as_euid().kind(), EntityType::User);
    assert_eq!(got.teams().len(), 0);
}

#[test]
fn insert_then_get_returns_equal_team() {
    let mut store = EntityStore::default();
    let t = Team::new(team_uid("temp"), "Temp".to_string(), vec![]);
    store.insert_team(t, &AllPowers);
    let got = store.get_team(&team_uid("temp"), AllPowers).unwrap();
    assert_eq!(got.name().as_str(), "Temp");
    assert_eq!(got.uid().as_euid().id().as_str(), "temp");
}

#[test]
fn insert_then_get_returns_equal_list() {
    let mut store = EntityStore::default();
    seed_list_refs(&mut store, "alice");
    store.insert_list(sample_list("0", "alice", "Groceries"), AllPowers);
    let got = store.get_list(&list_uid("0"), &AllPowers).unwrap();
    assert_eq!(got.name().as_str(), "Groceries");
    assert_eq!(got.owner().as_euid().id().as_str(), "alice");
    assert_eq!(got.readers().as_euid().id().as_str(), "readers");
    assert_eq!(got.editors().as_euid().id().as_str(), "editors");
    assert_eq!(got.tasks().len(), 0);
}

#[test]
fn insert_replaces_entity_with_same_id() {
    let mut store = EntityStore::default();
    store.insert_user(User::new(user_uid("a"), "First".to_string(), vec![]), AllPowers);
    store.insert_user(User::new(user_uid("a"), "Second".to_string(), vec![]), AllPowers);
    let got = store.get_user(&user_uid("a"), AllPowers).unwrap();
    assert_eq!(got.name().as_str(), "Second");
}

#[test]
fn delete_unknown_list_is_no_such_entity() {
    let mut store = EntityStore::default();
    let e = EntityUid::new(EntityType::List, "999".to_string());
    match store.delete_entity(&e, AllPowers) {
        Err(Error::NoSuchEntity(u)) => {
            assert_eq!(u.id().as_str(), "999");
            assert_eq!(u.kind(), EntityType::List);
        },
        _ => panic!("expected no-such-entity"),
    }
}

#[test]
fn deleted_entity_is_gone() {
    let mut store = EntityStore::default();
    store.insert_user(User::new(user_uid("gone"), "Gone".to_string(), vec![]), AllPowers);
    store
        .delete_entity(&EntityUid::new(EntityType::User, "gone".to_string()), AllPowers)
        .unwrap();
    match store.get_user(&user_uid("gone"), AllPowers) {
        Err(Error::NoSuchEntity(u)) => assert_eq!(u.id().as_str(), "gone"),
        _ => panic!("expected no-such-entity"),
    }
}

#[test]
fn delete_cannot_touch_the_application() {
    let mut store = EntityStore::default();
    let app = EntityUid::new(EntityType::Application, "TinyTodo".to_string());
    assert!(matches!(store.delete_entity(&app, AllPowers), Err(Error::NoSuchEntity(_))));
}

#[test]
fn fresh_ids_are_distinct_and_increasing() {
    let mut store = EntityStore::default();
    let a = store.fresh_euid(EntityType::List);
    let b = store.fresh_euid(EntityType::Team);
    let c = store.fresh_euid(EntityType::List);
    assert_eq!(a.id().as_str(), "0");
    assert_eq!(b.id().as_str(), "1");
    assert_eq!(c.id().as_str(), "2");
    assert_ne!(a.id(), b.id());
    assert_ne!(b.id(), c.id());
    assert_ne!(a.id(), c.id());
}

#[test]
fn fresh_id_monotonic_across_delete() {
    let mut store = EntityStore::default();
    seed_list_refs(&mut store, "alice");
    let e0 = store.fresh_euid(EntityType::List);
    assert_eq!(e0.id().as_str(), "0");
    store.insert_list(sample_list("0", "alice", "first"), AllPowers);
    store
        .delete_entity(&EntityUid::new(EntityType::List, "0".to_string()), AllPowers)
        .unwrap();
    let e1 = store.fresh_euid(EntityType::List);
    assert_eq!(e1.id().as_str(), "1");
}

#[test]
fn fresh_id_skips_an_id_already_present() {
    let mut store = EntityStore::default();
    seed_list_refs(&mut store, "alice");
    store.insert_list(sample_list("0", "alice", "squatter"), AllPowers);
    let e = store.fresh_euid(EntityType::List);
    assert_eq!(e.id().as_str(), "1");
}

#[test]
fn kind_conversion_round_trip_is_identity() {
    let e = EntityUid::new(EntityType::User, "x".to_string());
    let typed = UserUid::try_from_euid(e).unwrap();
    let back = typed.into_euid();
    assert_eq!(back.kind(), EntityType::User);
    assert_eq!(back.id().as_str(), "x");
    let again = UserUid::try_from_euid(back).unwrap();
    assert_eq!(again.as_euid().id().as_str(), "x");
}

#[test]
fn kind_conversion_across_kinds_is_kind_mismatch() {
    let e = EntityUid::new(EntityType::User, "x".to_string());
    match TeamUid::try_from_euid(e) {
        Err(Error::KindMismatch { expected, got }) => {
            assert_eq!(expected, UidKind::Team);
            assert_eq!(got, EntityType::User);
        },
        _ => panic!("expected kind-mismatch"),
    }
    let l = EntityUid::new(EntityType::List, "y".to_string());
    match UserOrTeamUid::try_from_euid(l) {
        Err(Error::KindMismatch { expected, got }) => {
            assert_eq!(expected, UidKind::UserOrTeam);
            assert_eq!(got, EntityType::List);
        },
        _ => panic!("expected kind-mismatch"),
    }
}

#[test]
fn user_or_team_uid_accepts_both_kinds() {
    let u = EntityUid::new(EntityType::User, "a".to_string());
    let t = EntityUid::new(EntityType::Team, "b".to_string());
    assert!(UserOrTeamUid::try_from_euid(u).is_ok());
    assert!(UserOrTeamUid::try_from_euid(t).is_ok());
}

#[test]
fn user_or_team_lookup_prefers_the_user() {
    let mut store = EntityStore::default();
    store.insert_user(User::new(user_uid("x"), "User X".to_string(), vec![]), AllPowers);
    store.insert_team(Team::new(team_uid("x"), "Team X".to_string(), vec![]), &AllPowers);
    let p = UserOrTeamUid::try_from_euid(EntityUid::new(EntityType::User, "x".to_string()))
        .unwrap();
    match store.get_user_or_team_mut(&p, AllPowers).unwrap() {
        UserOrTeamMut::User(u) => u.set_name("User X renamed".to_string()),
        UserOrTeamMut::Team(_) => panic!("expected the user variant"),
    }
    let got = store.get_user(&user_uid("x"), AllPowers).unwrap();
    assert_eq!(got.name().as_str(), "User X renamed");
}

#[test]
fn user_or_team_lookup_finds_a_team() {
    let mut store = EntityStore::default();
    store.insert_team(Team::new(team_uid("t"), "T".to_string(), vec![]), &AllPowers);
    let p = UserOrTeamUid::try_from_euid(EntityUid::new(EntityType::Team, "t".to_string()))
        .unwrap();
    match store.get_user_or_team_mut(&p, AllPowers).unwrap() {
        UserOrTeamMut::Team(t) => {
            t.insert_parent(UserOrTeamUid::from_team(team_uid("parent")));
        },
        UserOrTeamMut::User(_) => panic!("expected the team variant"),
    }
    let got = store.get_team(&team_uid("t"), AllPowers).unwrap();
    assert_eq!(got.parents().len(), 1);
}

#[test]
fn user_or_team_lookup_unknown_is_no_such_entity() {
    let mut store = EntityStore::default();
    let p = UserOrTeamUid::try_from_euid(EntityUid::new(EntityType::User, "nobody".to_string()))
        .unwrap();
    assert!(matches!(
        store.get_user_or_team_mut(&p, AllPowers),
        Err(Error::NoSuchEntity(_))
    ));
}

#[test]
fn mutable_list_access_writes_through() {
    let mut store = EntityStore::default();
    seed_list_refs(&mut store, "alice");
    store.insert_list(sample_list("0", "alice", "todo"), AllPowers);
    {
        let l = store.get_list_mut(&list_uid("0"), &AllPowers).unwrap();
        l.push_task(Task { id: 7, description: "buy milk".to_string(), done: false });
        l.set_name("renamed".to_string());
    }
    let got = store.get_list(&list_uid("0"), &AllPowers).unwrap();
    assert_eq!(got.name().as_str(), "renamed");
    assert_eq!(got.tasks().len(), 1);
    assert_eq!(got.tasks()[0].id, 7);
    assert_eq!(got.tasks()[0].description.as_str(), "buy milk");
    assert!(!got.tasks()[0].done);
}

#[test]
fn mutable_user_access_unknown_is_no_such_entity() {
    let mut store = EntityStore::default();
    assert!(matches!(
        store.get_user_mut(&user_uid("missing"), AllPowers),
        Err(Error::NoSuchEntity(_))
    ));
    assert!(matches!(
        store.get_team_mut(&team_uid("missing"), AllPowers),
        Err(Error::NoSuchEntity(_))
    ));
    assert!(matches!(
        store.get_list_mut(&list_uid("missing"), &AllPowers),
        Err(Error::NoSuchEntity(_))
    ));
}

#[test]
fn euids_enumerates_every_entity_and_the_application() {
    let mut store = EntityStore::default();
    seed_list_refs(&mut store, "u");
    store.insert_team(Team::new(team_uid("t"), "T".to_string(), vec![]), &AllPowers);
    store.insert_list(sample_list("l", "u", "L"), AllPowers);
    let ids = store.euids(&AllPowers);
    let rendered: Vec<(EntityType, String)> =
        ids.iter().map(|e| (e.kind(), e.id().clone())).collect();
    assert_eq!(rendered.len(), 6);
    assert!(rendered.contains(&(EntityType::User, "u".to_string())));
    assert!(rendered.contains(&(EntityType::Team, "t".to_string())));
    assert!(rendered.contains(&(EntityType::Team, "readers".to_string())));
    assert!(rendered.contains(&(EntityType::Team, "editors".to_string())));
    assert!(rendered.contains(&(EntityType::List, "l".to_string())));
    assert!(rendered.contains(&(EntityType::Application, "TinyTodo".to_string())));
}
