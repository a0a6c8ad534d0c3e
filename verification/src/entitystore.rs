//! The entity store: one mapping per entity kind, every read and mutation
//! gated by a capability proof, and minting of fresh identifiers.

use vstd::prelude::*;

use crate::engine;
use crate::errors::Error;
use crate::model::{
    assoc_map, dec_str, index_string, keys_distinct, lemma_assoc_contains, lemma_assoc_get,
    lemma_assoc_len, lemma_assoc_push, lemma_assoc_remove, lemma_assoc_update,
    lemma_distinct_push, lemma_distinct_remove, lemma_distinct_update, lemma_minted_range_card,
    minted_range,
};
use crate::objects::{application_uid, Application, List, ListView, Team, TeamView, User, UserView};
use crate::uid::{EntityType, EntityUid, ListUid, TeamUid, UidView, UserOrTeamUid, UserUid};
use crate::witnesses::{
    CreateList, CreateTeam, CreateUser, Delete, ReadAll, ReadList, ReadTeam, ReadUser, WriteList,
    WriteTeam, WriteTeamUser, WriteUser,
};

verus! {

/// Model of the store: one mapping per kind, the application singleton's
/// identifier, and the id-minting counter.
#[verifier::ext_equal]
pub struct StoreView {
    pub users: Map<UidView, UserView>,
    pub teams: Map<UidView, TeamView>,
    pub lists: Map<UidView, ListView>,
    pub app: UidView,
    pub uid: int,
}

/// The key/value entries described by a sequence of users.
pub open spec fn user_entries(s: Seq<User>) -> Seq<(UidView, UserView)> {
    s.map_values(|u: User| (u@.uid, u@))
}

/// The key/value entries described by a sequence of teams.
pub open spec fn team_entries(s: Seq<Team>) -> Seq<(UidView, TeamView)> {
    s.map_values(|t: Team| (t@.uid, t@))
}

/// The key/value entries described by a sequence of lists.
pub open spec fn list_entries(s: Seq<List>) -> Seq<(UidView, ListView)> {
    s.map_values(|l: List| (l@.uid, l@))
}

spec fn users_wf(s: Seq<User>) -> bool {
    forall|i: int| 0 <= i < s.len() ==> (#[trigger] s[i])@.wf()
}

spec fn teams_wf(s: Seq<Team>) -> bool {
    forall|i: int| 0 <= i < s.len() ==> (#[trigger] s[i])@.wf()
}

spec fn lists_wf(s: Seq<List>) -> bool {
    forall|i: int| 0 <= i < s.len() ==> (#[trigger] s[i])@.wf()
}

/// The entity store. The mapping for each kind is kept as a vector of
/// entities keyed by their own identifiers; the view presents each as a map.
pub struct EntityStore {
    users: Vec<User>,
    teams: Vec<Team>,
    lists: Vec<List>,
    app: Application,
    uid: usize,
}

impl View for EntityStore {
    type V = StoreView;

    closed spec fn view(&self) -> StoreView {
        StoreView {
            users: assoc_map(user_entries(self.users@)),
            teams: assoc_map(team_entries(self.teams@)),
            lists: assoc_map(list_entries(self.lists@)),
            app: self.app@,
            uid: self.uid as int,
        }
    }
}

impl Default for EntityStore {
    /// The empty store: no entities, the application singleton, counter zero.
    fn default() -> (r: EntityStore)
        ensures
            r.wf(),
            r@ == (StoreView {
                users: Map::empty(),
                teams: Map::empty(),
                lists: Map::empty(),
                app: application_uid(),
                uid: 0,
            }),
    {
        let r = EntityStore {
            users: Vec::new(),
            teams: Vec::new(),
            lists: Vec::new(),
            app: Application::new(),
            uid: 0,
        };
        proof {
            assert(r@ =~= StoreView {
                users: Map::empty(),
                teams: Map::empty(),
                lists: Map::empty(),
                app: application_uid(),
                uid: 0,
            });
        }
        r
    }
}

/// A mutable handle to either a user or a team: the polymorphic result of
/// the user-or-team lookup, exposing whichever entity carried the id.
pub enum UserOrTeamMut<'a> {
    User(&'a mut User),
    Team(&'a mut Team),
}

/// A sealed snapshot of all entities, formatted for the policy engine. The
/// wrapper exposes no accessor: the only way at the snapshot is to present
/// a read-all capability proof. Its view is the sequence of identifiers the
/// snapshot certifies.
pub struct SealedBundle {
    entities: cedar_policy::Entities,
    euids: Vec<EntityUid>,
}

impl View for SealedBundle {
    type V = Seq<UidView>;

    closed spec fn view(&self) -> Seq<UidView> {
        self.euids@.map_values(|e: EntityUid| e@)
    }
}

impl SealedBundle {
    /// The engine-form snapshot this bundle wraps.
    pub closed spec fn entities_spec(&self) -> cedar_policy::Entities {
        self.entities
    }

    /// Extract the engine-form snapshot, exactly as it was wrapped;
    /// demands a read-all proof.
    pub fn unwrap<P: ReadAll>(self, _proof: P) -> (r: cedar_policy::Entities)
        ensures
            r == self.entities_spec(),
    {
        self.entities
    }

    /// The identifiers of every entity in the snapshot, in the store's
    /// enumeration order; demands a read-all proof.
    pub fn euids<P: ReadAll>(&self, _proof: &P) -> (r: &Vec<EntityUid>)
        ensures
            r@.map_values(|e: EntityUid| e@) == self@,
    {
        &self.euids
    }
}

/// Law (insert then read): after an insert of user `e` the store maps
/// `e`'s identifier to `e`, so a read of that identifier with the correct
/// capability returns an entity equal to `e`.
pub proof fn lemma_inserted_user_is_read(pre: StoreView, post: StoreView, e: UserView)
    requires
        post == (StoreView { users: pre.users.insert(e.uid, e), ..pre }),
    ensures
        post.users.contains_key(e.uid),
        post.users[e.uid] == e,
{
}

/// Law (insert then read): after an insert of team `e` the store maps
/// `e`'s identifier to `e`, so a read of that identifier with the correct
/// capability returns an entity equal to `e`.
pub proof fn lemma_inserted_team_is_read(pre: StoreView, post: StoreView, e: TeamView)
    requires
        post == (StoreView { teams: pre.teams.insert(e.uid, e), ..pre }),
    ensures
        post.teams.contains_key(e.uid),
        post.teams[e.uid] == e,
{
}

/// Law (insert then read): after an insert of list `e` the store maps
/// `e`'s identifier to `e`, so a read of that identifier with the correct
/// capability returns an entity equal to `e`.
pub proof fn lemma_inserted_list_is_read(pre: StoreView, post: StoreView, e: ListView)
    requires
        post == (StoreView { lists: pre.lists.insert(e.uid, e), ..pre }),
    ensures
        post.lists.contains_key(e.uid),
        post.lists[e.uid] == e,
{
}

/// Law (delete then read): after a delete of identifier `k` no mapping
/// contains `k`, so every subsequent read of `k` fails with
/// no-such-entity.
pub proof fn lemma_deleted_entity_is_gone(pre: StoreView, post: StoreView, k: UidView)
    requires
        post == (StoreView {
            users: pre.users.remove(k),
            teams: pre.teams.remove(k),
            lists: pre.lists.remove(k),
            ..pre
        }),
    ensures
        !post.users.contains_key(k),
        !post.teams.contains_key(k),
        !post.lists.contains_key(k),
{
}

/// Law (fresh-id monotonicity): minted identifiers render strictly
/// increasing counter values, so any two of them are pairwise distinct;
/// the counter is never reset, deletions included.
pub proof fn lemma_fresh_ids_distinct(n1: int, n2: int, k1: UidView, k2: UidView)
    requires
        0 <= n1 < n2,
        k1.id == dec_str(n1 as nat),
        k2.id == dec_str(n2 as nat),
    ensures
        k1.id != k2.id,
{
    if k1.id == k2.id {
        crate::model::lemma_dec_str_inj(n1 as nat, n2 as nat);
    }
}

// Helper lemmas about the store's per-kind mappings.
proof fn lemma_user_keys_kind(s: Seq<User>)
    requires
        users_wf(s),
    ensures
        forall|k: UidView|
            assoc_map(user_entries(s)).contains_key(k) ==> (#[trigger] k.kind) == EntityType::User,
{
    assert forall|k: UidView| assoc_map(user_entries(s)).contains_key(k) implies (
    #[trigger] k.kind) == EntityType::User by {
        lemma_assoc_contains(user_entries(s), k);
        let i = choose|i: int| 0 <= i < user_entries(s).len() && (#[trigger] user_entries(s)[i]).0
            == k;
        assert(s[i]@.wf());
    }
}

proof fn lemma_team_keys_kind(s: Seq<Team>)
    requires
        teams_wf(s),
    ensures
        forall|k: UidView|
            assoc_map(team_entries(s)).contains_key(k) ==> (#[trigger] k.kind) == EntityType::Team,
{
    assert forall|k: UidView| assoc_map(team_entries(s)).contains_key(k) implies (
    #[trigger] k.kind) == EntityType::Team by {
        lemma_assoc_contains(team_entries(s), k);
        let i = choose|i: int| 0 <= i < team_entries(s).len() && (#[trigger] team_entries(s)[i]).0
            == k;
        assert(s[i]@.wf());
    }
}

proof fn lemma_list_keys_kind(s: Seq<List>)
    requires
        lists_wf(s),
    ensures
        forall|k: UidView|
            assoc_map(list_entries(s)).contains_key(k) ==> (#[trigger] k.kind) == EntityType::List,
{
    assert forall|k: UidView| assoc_map(list_entries(s)).contains_key(k) implies (
    #[trigger] k.kind) == EntityType::List by {
        lemma_assoc_contains(list_entries(s), k);
        let i = choose|i: int| 0 <= i < list_entries(s).len() && (#[trigger] list_entries(s)[i]).0
            == k;
        assert(s[i]@.wf());
    }
}

// Facts about overwriting one entity in place, stated for every value the
// overwrite might leave there.
proof fn lemma_users_update_any(s: Seq<User>, i: int)
    requires
        keys_distinct(user_entries(s)),
        0 <= i < s.len(),
    ensures
        forall|u: User|
            u@.uid == s[i]@.uid ==> #[trigger] assoc_map(user_entries(s.update(i, u)))
                == assoc_map(user_entries(s)).insert(u@.uid, u@),
        forall|u: User| u@.uid == s[i]@.uid ==> keys_distinct(#[trigger] user_entries(s.update(i, u))),
        forall|u: User|
            (u@.uid == s[i]@.uid && u@.wf() && users_wf(s)) ==> users_wf(#[trigger] s.update(i, u)),
{
    assert forall|u: User| u@.uid == s[i]@.uid implies (#[trigger] assoc_map(user_entries(s.update(i,
        u)))) == assoc_map(user_entries(s)).insert(u@.uid, u@) by {
        assert(user_entries(s.update(i, u)) =~= user_entries(s).update(i, (u@.uid, u@)));
        lemma_assoc_update(user_entries(s), i, (u@.uid, u@));
    }
    assert forall|u: User| u@.uid == s[i]@.uid implies keys_distinct(#[trigger] user_entries(
        s.update(i, u))) by {
        assert(user_entries(s.update(i, u)) =~= user_entries(s).update(i, (u@.uid, u@)));
        lemma_distinct_update(user_entries(s), i, (u@.uid, u@));
    }
    assert forall|u: User| u@.uid == s[i]@.uid && u@.wf() && users_wf(s) implies users_wf(
        #[trigger] s.update(i, u)) by {
        assert forall|j: int| 0 <= j < s.update(i, u).len() implies (#[trigger] s.update(i,
            u)[j])@.wf() by {
            if j != i {
                assert(s.update(i, u)[j] == s[j]);
            }
        }
    }
}

proof fn lemma_teams_update_any(s: Seq<Team>, i: int)
    requires
        keys_distinct(team_entries(s)),
        0 <= i < s.len(),
    ensures
        forall|u: Team|
            u@.uid == s[i]@.uid ==> #[trigger] assoc_map(team_entries(s.update(i, u)))
                == assoc_map(team_entries(s)).insert(u@.uid, u@),
        forall|u: Team| u@.uid == s[i]@.uid ==> keys_distinct(#[trigger] team_entries(s.update(i, u))),
        forall|u: Team|
            (u@.uid == s[i]@.uid && u@.wf() && teams_wf(s)) ==> teams_wf(#[trigger] s.update(i, u)),
{
    assert forall|u: Team| u@.uid == s[i]@.uid implies (#[trigger] assoc_map(team_entries(s.update(i,
        u)))) == assoc_map(team_entries(s)).insert(u@.uid, u@) by {
        assert(team_entries(s.update(i, u)) =~= team_entries(s).update(i, (u@.uid, u@)));
        lemma_assoc_update(team_entries(s), i, (u@.uid, u@));
    }
    assert forall|u: Team| u@.uid == s[i]@.uid implies keys_distinct(#[trigger] team_entries(
        s.update(i, u))) by {
        assert(team_entries(s.update(i, u)) =~= team_entries(s).update(i, (u@.uid, u@)));
        lemma_distinct_update(team_entries(s), i, (u@.uid, u@));
    }
    assert forall|u: Team| u@.uid == s[i]@.uid && u@.wf() && teams_wf(s) implies teams_wf(
        #[trigger] s.update(i, u)) by {
        assert forall|j: int| 0 <= j < s.update(i, u).len() implies (#[trigger] s.update(i,
            u)[j])@.wf() by {
            if j != i {
                assert(s.update(i, u)[j] == s[j]);
            }
        }
    }
}

proof fn lemma_lists_update_any(s: Seq<List>, i: int)
    requires
        keys_distinct(list_entries(s)),
        0 <= i < s.len(),
    ensures
        forall|u: List|
            u@.uid == s[i]@.uid ==> #[trigger] assoc_map(list_entries(s.update(i, u)))
                == assoc_map(list_entries(s)).insert(u@.uid, u@),
        forall|u: List| u@.uid == s[i]@.uid ==> keys_distinct(#[trigger] list_entries(s.update(i, u))),
        forall|u: List|
            (u@.uid == s[i]@.uid && u@.wf() && lists_wf(s)) ==> lists_wf(#[trigger] s.update(i, u)),
{
    assert forall|u: List| u@.uid == s[i]@.uid implies (#[trigger] assoc_map(list_entries(s.update(i,
        u)))) == assoc_map(list_entries(s)).insert(u@.uid, u@) by {
        assert(list_entries(s.update(i, u)) =~= list_entries(s).update(i, (u@.uid, u@)));
        lemma_assoc_update(list_entries(s), i, (u@.uid, u@));
    }
    assert forall|u: List| u@.uid == s[i]@.uid implies keys_distinct(#[trigger] list_entries(
        s.update(i, u))) by {
        assert(list_entries(s.update(i, u)) =~= list_entries(s).update(i, (u@.uid, u@)));
        lemma_distinct_update(list_entries(s), i, (u@.uid, u@));
    }
    assert forall|u: List| u@.uid == s[i]@.uid && u@.wf() && lists_wf(s) implies lists_wf(
        #[trigger] s.update(i, u)) by {
        assert forall|j: int| 0 <= j < s.update(i, u).len() implies (#[trigger] s.update(i,
            u)[j])@.wf() by {
            if j != i {
                assert(s.update(i, u)[j] == s[j]);
            }
        }
    }
}

impl EntityStore {
    /// The store's invariant: within each mapping identifiers are unique,
    /// every entity is well formed (so the kind tag of every identifier
    /// matches the mapping it lives in), and the application singleton
    /// carries its fixed identifier.
    pub closed spec fn wf(&self) -> bool {
        &&& keys_distinct(user_entries(self.users@))
        &&& keys_distinct(team_entries(self.teams@))
        &&& keys_distinct(list_entries(self.lists@))
        &&& users_wf(self.users@)
        &&& teams_wf(self.teams@)
        &&& lists_wf(self.lists@)
        &&& self.app@ == application_uid()
    }

    /// Law (kind/identifier coherence): in a well-formed store the kind tag
    /// of every identifier matches the mapping it lives in, and the
    /// application singleton carries its fixed identifier.
    pub proof fn lemma_kind_coherence(&self)
        requires
            self.wf(),
        ensures
            forall|k: UidView|
                self@.users.contains_key(k) ==> (#[trigger] k.kind) == EntityType::User,
            forall|k: UidView|
                self@.teams.contains_key(k) ==> (#[trigger] k.kind) == EntityType::Team,
            forall|k: UidView|
                self@.lists.contains_key(k) ==> (#[trigger] k.kind) == EntityType::List,
            self@.app == application_uid(),
    {
        lemma_user_keys_kind(self.users@);
        lemma_team_keys_kind(self.teams@);
        lemma_list_keys_kind(self.lists@);
    }

    /// The sequence of every identifier in the store, in enumeration order:
    /// users, then teams, then lists, then the application singleton.
    pub closed spec fn euids_seq(&self) -> Seq<UidView> {
        self.users@.map_values(|u: User| u@.uid) + self.teams@.map_values(|t: Team| t@.uid)
            + self.lists@.map_values(|l: List| l@.uid) + seq![self.app@]
    }

    /// The minting counter is never negative.
    pub proof fn lemma_counter_nonneg(&self)
        ensures
            0 <= self@.uid,
    {
    }

    /// Law (enumeration exactness): a well-formed store enumerates every
    /// identifier exactly once: the sequence is pairwise distinct and its
    /// length is the entity count plus one for the application singleton.
    pub proof fn lemma_euids_seq_distinct(&self)
        requires
            self.wf(),
        ensures
            forall|i: int, j: int|
                0 <= i < j < self.euids_seq().len() ==> (#[trigger] self.euids_seq()[i]) != (
                #[trigger] self.euids_seq()[j]),
            self.euids_seq().len() == self@.users.dom().len() + self@.teams.dom().len()
                + self@.lists.dom().len() + 1,
    {
        let s = self.euids_seq();
        let nu = self.users@.len() as int;
        let nt = self.teams@.len() as int;
        let nl = self.lists@.len() as int;
        lemma_assoc_len(user_entries(self.users@));
        lemma_assoc_len(team_entries(self.teams@));
        lemma_assoc_len(list_entries(self.lists@));
        assert forall|i: int| 0 <= i < s.len() implies (#[trigger] s[i]).kind == (if i < nu {
            EntityType::User
        } else if i < nu + nt {
            EntityType::Team
        } else if i < nu + nt + nl {
            EntityType::List
        } else {
            EntityType::Application
        }) by {
            if i < nu {
                assert(self.users@[i]@.wf());
            } else if i < nu + nt {
                assert(self.teams@[i - nu]@.wf());
            } else if i < nu + nt + nl {
                assert(self.lists@[i - nu - nt]@.wf());
            }
        }
        assert forall|i: int, j: int| 0 <= i < j < s.len() implies (#[trigger] s[i]) != (
        #[trigger] s[j]) by {
            if j < nu {
                assert(user_entries(self.users@)[i].0 != user_entries(self.users@)[j].0);
            } else if nu <= i && j < nu + nt {
                assert(team_entries(self.teams@)[i - nu].0 != team_entries(self.teams@)[j - nu].0);
            } else if nu + nt <= i && j < nu + nt + nl {
                assert(list_entries(self.lists@)[i - nu - nt].0 != list_entries(
                    self.lists@)[j - nu - nt].0);
            }
        }
    }

    /// Law (enumeration completeness): the identifiers enumerated are
    /// exactly those of the store's mappings plus the application singleton.
    pub proof fn lemma_euids_seq_complete(&self)
        requires
            self.wf(),
        ensures
            self.euids_seq().to_set() == self@.users.dom().union(self@.teams.dom()).union(
                self@.lists.dom(),
            ).insert(self@.app),
    {
        let s = self.euids_seq();
        let us = self.users@.map_values(|u: User| u@.uid);
        let ts = self.teams@.map_values(|t: Team| t@.uid);
        let ls = self.lists@.map_values(|l: List| l@.uid);
        let rhs = self@.users.dom().union(self@.teams.dom()).union(self@.lists.dom()).insert(
            self@.app);
        assert forall|k: UidView| s.to_set().contains(k) implies rhs.contains(k) by {
            let i = choose|i: int| 0 <= i < s.len() && s[i] == k;
            if i < us.len() {
                lemma_assoc_get(user_entries(self.users@), i);
            } else if i < us.len() + ts.len() {
                lemma_assoc_get(team_entries(self.teams@), i - us.len());
            } else if i < us.len() + ts.len() + ls.len() {
                lemma_assoc_get(list_entries(self.lists@), i - us.len() - ts.len());
            }
        }
        assert forall|k: UidView| rhs.contains(k) implies s.to_set().contains(k) by {
            if self@.users.contains_key(k) {
                lemma_assoc_contains(user_entries(self.users@), k);
                let i = choose|i: int|
                    0 <= i < user_entries(self.users@).len() && (#[trigger] user_entries(
                        self.users@)[i]).0 == k;
                assert(s[i] == k);
            } else if self@.teams.contains_key(k) {
                lemma_assoc_contains(team_entries(self.teams@), k);
                let i = choose|i: int|
                    0 <= i < team_entries(self.teams@).len() && (#[trigger] team_entries(
                        self.teams@)[i]).0 == k;
                assert(s[us.len() + i] == k);
            } else if self@.lists.contains_key(k) {
                lemma_assoc_contains(list_entries(self.lists@), k);
                let i = choose|i: int|
                    0 <= i < list_entries(self.lists@).len() && (#[trigger] list_entries(
                        self.lists@)[i]).0 == k;
                assert(s[us.len() + ts.len() + i] == k);
            } else {
                assert(s[s.len() - 1] == self.app@);
            }
        }
        assert(s.to_set() =~= rhs);
    }

    // First index in the user mapping that carries the identifier, if any.
    fn find_user(&self, e: &EntityUid) -> (r: Option<usize>)
        ensures
            match r {
                Some(i) => i < self.users@.len() && self.users@[i as int]@.uid == e@,
                None => forall|i: int|
                    0 <= i < self.users@.len() ==> (#[trigger] self.users@[i])@.uid != e@,
            },
    {
        let mut i: usize = 0;
        while i < self.users.len()
            invariant
                i <= self.users@.len(),
                forall|j: int| 0 <= j < i ==> (#[trigger] self.users@[j])@.uid != e@,
            decreases self.users@.len() - i,
        {
            if self.users[i].uid().as_euid() == e {
                return Some(i);
            }
            i += 1;
        }
        None
    }

    fn find_team(&self, e: &EntityUid) -> (r: Option<usize>)
        ensures
            match r {
                Some(i) => i < self.teams@.len() && self.teams@[i as int]@.uid == e@,
                None => forall|i: int|
                    0 <= i < self.teams@.len() ==> (#[trigger] self.teams@[i])@.uid != e@,
            },
    {
        let mut i: usize = 0;
        while i < self.teams.len()
            invariant
                i <= self.teams@.len(),
                forall|j: int| 0 <= j < i ==> (#[trigger] self.teams@[j])@.uid != e@,
            decreases self.teams@.len() - i,
        {
            if self.teams[i].uid().as_euid() == e {
                return Some(i);
            }
            i += 1;
        }
        None
    }

    fn find_list(&self, e: &EntityUid) -> (r: Option<usize>)
        ensures
            match r {
                Some(i) => i < self.lists@.len() && self.lists@[i as int]@.uid == e@,
                None => forall|i: int|
                    0 <= i < self.lists@.len() ==> (#[trigger] self.lists@[i])@.uid != e@,
            },
    {
        let mut i: usize = 0;
        while i < self.lists.len()
            invariant
                i <= self.lists@.len(),
                forall|j: int| 0 <= j < i ==> (#[trigger] self.lists@[j])@.uid != e@,
            decreases self.lists@.len() - i,
        {
            if self.lists[i].uid().as_euid() == e {
                return Some(i);
            }
            i += 1;
        }
        None
    }

    /// Whether any mapping, or the application singleton, carries the id.
    pub open spec fn contains_euid(&self, k: UidView) -> bool {
        self@.users.contains_key(k) || self@.teams.contains_key(k) || self@.lists.contains_key(k)
            || k == self@.app
    }

    fn euid_exists(&self, e: &EntityUid) -> (r: bool)
        requires
            self.wf(),
        ensures
            r == self.contains_euid(e@),
    {
        let fu = self.find_user(e);
        let ft = self.find_team(e);
        let fl = self.find_list(e);
        proof {
            lemma_assoc_contains(user_entries(self.users@), e@);
            lemma_assoc_contains(team_entries(self.teams@), e@);
            lemma_assoc_contains(list_entries(self.lists@), e@);
            match fu {
                Some(i) => {
                    assert(user_entries(self.users@)[i as int].0 == e@);
                },
                None => {
                    assert forall|i: int| 0 <= i < user_entries(self.users@).len() implies (
                    #[trigger] user_entries(self.users@)[i]).0 != e@ by {
                        assert(self.users@[i]@.uid != e@);
                    }
                },
            }
            match ft {
                Some(i) => {
                    assert(team_entries(self.teams@)[i as int].0 == e@);
                },
                None => {
                    assert forall|i: int| 0 <= i < team_entries(self.teams@).len() implies (
                    #[trigger] team_entries(self.teams@)[i]).0 != e@ by {
                        assert(self.teams@[i]@.uid != e@);
                    }
                },
            }
            match fl {
                Some(i) => {
                    assert(list_entries(self.lists@)[i as int].0 == e@);
                },
                None => {
                    assert forall|i: int| 0 <= i < list_entries(self.lists@).len() implies (
                    #[trigger] list_entries(self.lists@)[i]).0 != e@ by {
                        assert(self.lists@[i]@.uid != e@);
                    }
                },
            }
        }
        fl.is_some() || ft.is_some() || fu.is_some() || self.app.euid() == e
    }

    // The number of entities over all three mappings.
    spec fn entity_count(&self) -> int {
        self.users@.len() + self.teams@.len() + self.lists@.len() as int
    }

    // The set of every identifier present, the application's included.
    spec fn all_euids_set(&self) -> Set<UidView> {
        self@.users.dom().union(self@.teams.dom()).union(self@.lists.dom()).insert(self@.app)
    }

    proof fn lemma_all_euids_card(&self)
        requires
            self.wf(),
        ensures
            self.all_euids_set().finite(),
            self.all_euids_set().len() <= self.entity_count() + 1,
            forall|k: UidView| self.contains_euid(k) <==> #[trigger] self.all_euids_set().contains(
                k,
            ),
    {
        lemma_assoc_len(user_entries(self.users@));
        lemma_assoc_len(team_entries(self.teams@));
        lemma_assoc_len(list_entries(self.lists@));
        vstd::set_lib::lemma_len_union(self@.users.dom(), self@.teams.dom());
        vstd::set_lib::lemma_len_union(self@.users.dom().union(self@.teams.dom()),
            self@.lists.dom());
    }

    /// Allocate the next unused identifier of the requested kind. The
    /// counter advances on every attempt and persists across deletions, so
    /// minted ids strictly increase and are effectively one-time; an id
    /// already present in the store (which monotonicity rules out for
    /// freshly minted ids, but insertion of arbitrary ids can produce) is
    /// skipped defensively.
    pub fn fresh_euid(&mut self, ty: EntityType) -> (r: EntityUid)
        requires
            old(self).wf(),
            old(self)@.uid + old(self)@.users.dom().len() + old(self)@.teams.dom().len() + old(
                self)@.lists.dom().len() + 2 <= usize::MAX,
        ensures
            final(self).wf(),
            final(self)@.uid <= old(self)@.uid + old(self)@.users.dom().len() + old(
                self)@.teams.dom().len() + old(self)@.lists.dom().len() + 2,
            ({
                let n = final(self)@.uid - 1;
                &&& old(self)@.uid <= n
                &&& r@ == (UidView { kind: ty, id: dec_str(n as nat) })
                &&& !old(self).contains_euid(r@)
                &&& forall|m: int|
                    old(self)@.uid <= m < n ==> old(self).contains_euid(
                        UidView { kind: ty, id: #[trigger] dec_str(m as nat) },
                    )
                &&& final(self)@ == (StoreView { uid: n + 1, ..old(self)@ })
            }),
    {
        proof {
            lemma_assoc_len(user_entries(self.users@));
            lemma_assoc_len(team_entries(self.teams@));
            lemma_assoc_len(list_entries(self.lists@));
        }
        let ghost start = self.uid as int;
        loop
            invariant
                self.wf(),
                self.users@ == old(self).users@,
                self.teams@ == old(self).teams@,
                self.lists@ == old(self).lists@,
                self.app == old(self).app,
                start == old(self)@.uid,
                start <= self.uid as int,
                self.uid as int <= start + self.entity_count() + 1,
                old(self)@.uid + old(self).entity_count() + 2 <= usize::MAX,
                self.entity_count() == old(self).entity_count(),
                forall|m: int|
                    start <= m < self.uid as int ==> old(self).contains_euid(
                        UidView { kind: ty, id: #[trigger] dec_str(m as nat) },
                    ),
            decreases start + self.entity_count() + 1 - self.uid,
        {
            let ghost n = self.uid as int;
            let id_s = index_string(self.uid);
            let e = EntityUid::new(ty, id_s);
            self.uid = self.uid + 1;
            let present = self.euid_exists(&e);
            proof {
                assert(self@ =~= StoreView { uid: self.uid as int, ..old(self)@ });
            }
            if !present {
                proof {
                    assert(self@ == (StoreView { uid: n + 1, ..old(self)@ }));
                    lemma_assoc_len(user_entries(old(self).users@));
                    lemma_assoc_len(team_entries(old(self).teams@));
                    lemma_assoc_len(list_entries(old(self).lists@));
                }
                return e;
            }
            proof {
                assert(old(self).contains_euid(UidView { kind: ty, id: dec_str(n as nat) }));
                lemma_minted_range_card(ty, start, self.uid as int);
                old(self).lemma_all_euids_card();
                assert forall|k: UidView|
                    minted_range(ty, start, self.uid as int).contains(k) implies old(
                    self).all_euids_set().contains(k) by {
                    let m = choose|m: int|
                        start <= m < self.uid as int && k == (UidView {
                            kind: ty,
                            id: #[trigger] dec_str(m as nat),
                        });
                    assert(old(self).contains_euid(k));
                }
                vstd::set_lib::lemma_len_subset(minted_range(ty, start, self.uid as int),
                    old(self).all_euids_set());
            }
        }
    }

    /// Insert a user, replacing any prior entity with the same id. Demands
    /// a create-user proof; the user's joined teams must resolve to teams
    /// present in the store.
    pub fn insert_user<P: CreateUser>(&mut self, e: User, _proof: P)
        requires
            old(self).wf(),
            e@.wf(),
            forall|i: int|
                0 <= i < e@.teams.len() ==> old(self)@.teams.contains_key(#[trigger] e@.teams[i]),
        ensures
            final(self).wf(),
            final(self)@ == (StoreView { users: old(self)@.users.insert(e@.uid, e@), ..old(self)@ }),
    {
        let idx = self.find_user(e.uid().as_euid());
        match idx {
            Some(i) => {
                proof {
                    lemma_assoc_update(user_entries(old(self).users@), i as int, (e@.uid, e@));
                    lemma_distinct_update(user_entries(old(self).users@), i as int, (e@.uid, e@));
                }
                self.users.set(i, e);
                proof {
                    assert(user_entries(self.users@) =~= user_entries(old(self).users@).update(
                        i as int, (e@.uid, e@)));
                    assert(self@ =~= StoreView {
                        users: old(self)@.users.insert(e@.uid, e@),
                        ..old(self)@
                    });
                }
            },
            None => {
                proof {
                    assert forall|j: int|
                        0 <= j < user_entries(old(self).users@).len() implies (
                    #[trigger] user_entries(old(self).users@)[j]).0 != e@.uid by {
                        assert(old(self).users@[j]@.uid != e@.uid);
                    }
                    lemma_assoc_push(user_entries(old(self).users@), (e@.uid, e@));
                    lemma_distinct_push(user_entries(old(self).users@), (e@.uid, e@));
                }
                self.users.push(e);
                proof {
                    assert(user_entries(self.users@) =~= user_entries(old(self).users@).push(
                        (e@.uid, e@)));
                    assert(self@ =~= StoreView {
                        users: old(self)@.users.insert(e@.uid, e@),
                        ..old(self)@
                    });
                }
            },
        }
    }

    /// Insert a team, replacing any prior entity with the same id. Demands
    /// a create-team proof; the team's parents must resolve to teams
    /// present in the store.
    pub fn insert_team<P: CreateTeam>(&mut self, e: Team, _proof: &P)
        requires
            old(self).wf(),
            e@.wf(),
            forall|i: int|
                0 <= i < e@.parents.len() ==> old(self)@.teams.contains_key(
                    #[trigger] e@.parents[i],
                ),
        ensures
            final(self).wf(),
            final(self)@ == (StoreView { teams: old(self)@.teams.insert(e@.uid, e@), ..old(self)@ }),
    {
        let idx = self.find_team(e.uid().as_euid());
        match idx {
            Some(i) => {
                proof {
                    lemma_assoc_update(team_entries(old(self).teams@), i as int, (e@.uid, e@));
                    lemma_distinct_update(team_entries(old(self).teams@), i as int, (e@.uid, e@));
                }
                self.teams.set(i, e);
                proof {
                    assert(team_entries(self.teams@) =~= team_entries(old(self).teams@).update(
                        i as int, (e@.uid, e@)));
                    assert(self@ =~= StoreView {
                        teams: old(self)@.teams.insert(e@.uid, e@),
                        ..old(self)@
                    });
                }
            },
            None => {
                proof {
                    assert forall|j: int|
                        0 <= j < team_entries(old(self).teams@).len() implies (
                    #[trigger] team_entries(old(self).teams@)[j]).0 != e@.uid by {
                        assert(old(self).teams@[j]@.uid != e@.uid);
                    }
                    lemma_assoc_push(team_entries(old(self).teams@), (e@.uid, e@));
                    lemma_distinct_push(team_entries(old(self).teams@), (e@.uid, e@));
                }
                self.teams.push(e);
                proof {
                    assert(team_entries(self.teams@) =~= team_entries(old(self).teams@).push(
                        (e@.uid, e@)));
                    assert(self@ =~= StoreView {
                        teams: old(self)@.teams.insert(e@.uid, e@),
                        ..old(self)@
                    });
                }
            },
        }
    }

    /// Insert a list, replacing any prior entity with the same id. Demands
    /// a create-list proof; the list's owner must resolve to a user, and
    /// its reader and editor recipients to users or teams, in the store.
    pub fn insert_list<P: CreateList>(&mut self, e: List, _proof: P)
        requires
            old(self).wf(),
            e@.wf(),
            old(self)@.users.contains_key(e@.owner),
            old(self)@.users.contains_key(e@.readers) || old(self)@.teams.contains_key(e@.readers),
            old(self)@.users.contains_key(e@.editors) || old(self)@.teams.contains_key(e@.editors),
        ensures
            final(self).wf(),
            final(self)@ == (StoreView { lists: old(self)@.lists.insert(e@.uid, e@), ..old(self)@ }),
    {
        let idx = self.find_list(e.uid().as_euid());
        match idx {
            Some(i) => {
                proof {
                    lemma_assoc_update(list_entries(old(self).lists@), i as int, (e@.uid, e@));
                    lemma_distinct_update(list_entries(old(self).lists@), i as int, (e@.uid, e@));
                }
                self.lists.set(i, e);
                proof {
                    assert(list_entries(self.lists@) =~= list_entries(old(self).lists@).update(
                        i as int, (e@.uid, e@)));
                    assert(self@ =~= StoreView {
                        lists: old(self)@.lists.insert(e@.uid, e@),
                        ..old(self)@
                    });
                }
            },
            None => {
                proof {
                    assert forall|j: int|
                        0 <= j < list_entries(old(self).lists@).len() implies (
                    #[trigger] list_entries(old(self).lists@)[j]).0 != e@.uid by {
                        assert(old(self).lists@[j]@.uid != e@.uid);
                    }
                    lemma_assoc_push(list_entries(old(self).lists@), (e@.uid, e@));
                    lemma_distinct_push(list_entries(old(self).lists@), (e@.uid, e@));
                }
                self.lists.push(e);
                proof {
                    assert(list_entries(self.lists@) =~= list_entries(old(self).lists@).push(
                        (e@.uid, e@)));
                    assert(self@ =~= StoreView {
                        lists: old(self)@.lists.insert(e@.uid, e@),
                        ..old(self)@
                    });
                }
            },
        }
    }

    /// Remove the entity whose id matches from whichever mapping contains
    /// it; the application singleton is never deleted. Demands a delete
    /// proof. Fails with no-such-entity when no mapping contains the id.
    pub fn delete_entity<P: Delete>(&mut self, e: &EntityUid, _proof: P) -> (r: Result<(), Error>)
        requires
            old(self).wf(),
        ensures
            final(self).wf(),
            match r {
                Ok(()) => {
                    &&& old(self)@.users.contains_key(e@) || old(self)@.teams.contains_key(e@)
                        || old(self)@.lists.contains_key(e@)
                    &&& final(self)@ == (StoreView {
                        users: old(self)@.users.remove(e@),
                        teams: old(self)@.teams.remove(e@),
                        lists: old(self)@.lists.remove(e@),
                        ..old(self)@
                    })
                },
                Err(err) => {
                    &&& !old(self)@.users.contains_key(e@)
                    &&& !old(self)@.teams.contains_key(e@)
                    &&& !old(self)@.lists.contains_key(e@)
                    &&& err matches Error::NoSuchEntity(m) && m@ == e@
                    &&& final(self)@ == old(self)@
                },
            },
    {
        proof {
            lemma_user_keys_kind(old(self).users@);
            lemma_team_keys_kind(old(self).teams@);
            lemma_list_keys_kind(old(self).lists@);
        }
        if let Some(i) = self.find_user(e) {
            proof {
                lemma_assoc_get(user_entries(old(self).users@), i as int);
                lemma_assoc_remove(user_entries(old(self).users@), i as int);
                lemma_distinct_remove(user_entries(old(self).users@), i as int);
            }
            self.users.remove(i);
            proof {
                assert(user_entries(self.users@) =~= user_entries(old(self).users@).remove(
                    i as int));
                assert(old(self)@.teams.remove(e@) =~= old(self)@.teams);
                assert(old(self)@.lists.remove(e@) =~= old(self)@.lists);
                assert(self@ =~= StoreView {
                    users: old(self)@.users.remove(e@),
                    teams: old(self)@.teams.remove(e@),
                    lists: old(self)@.lists.remove(e@),
                    ..old(self)@
                });
            }
            Ok(())
        } else if let Some(i) = self.find_team(e) {
            proof {
                lemma_assoc_get(team_entries(old(self).teams@), i as int);
                lemma_assoc_remove(team_entries(old(self).teams@), i as int);
                lemma_distinct_remove(team_entries(old(self).teams@), i as int);
            }
            self.teams.remove(i);
            proof {
                assert(team_entries(self.teams@) =~= team_entries(old(self).teams@).remove(
                    i as int));
                assert(old(self)@.users.remove(e@) =~= old(self)@.users);
                assert(old(self)@.lists.remove(e@) =~= old(self)@.lists);
                assert(self@ =~= StoreView {
                    users: old(self)@.users.remove(e@),
                    teams: old(self)@.teams.remove(e@),
                    lists: old(self)@.lists.remove(e@),
                    ..old(self)@
                });
            }
            Ok(())
        } else if let Some(i) = self.find_list(e) {
            proof {
                lemma_assoc_get(list_entries(old(self).lists@), i as int);
                lemma_assoc_remove(list_entries(old(self).lists@), i as int);
                lemma_distinct_remove(list_entries(old(self).lists@), i as int);
            }
            self.lists.remove(i);
            proof {
                assert(list_entries(self.lists@) =~= list_entries(old(self).lists@).remove(
                    i as int));
                assert(old(self)@.users.remove(e@) =~= old(self)@.users);
                assert(old(self)@.teams.remove(e@) =~= old(self)@.teams);
                assert(self@ =~= StoreView {
                    users: old(self)@.users.remove(e@),
                    teams: old(self)@.teams.remove(e@),
                    lists: old(self)@.lists.remove(e@),
                    ..old(self)@
                });
            }
            Ok(())
        } else {
            proof {
                lemma_assoc_contains(user_entries(old(self).users@), e@);
                lemma_assoc_contains(team_entries(old(self).teams@), e@);
                lemma_assoc_contains(list_entries(old(self).lists@), e@);
            }
            Err(Error::NoSuchEntity(e.clone()))
        }
    }

    /// Read one user. Demands a read-user proof. Fails with no-such-entity
    /// when the id is absent.
    pub fn get_user<P: ReadUser>(&self, euid: &UserUid, _proof: P) -> (r: Result<&User, Error>)
        requires
            self.wf(),
        ensures
            match r {
                Ok(u) => self@.users.contains_key(euid@) && u@ == self@.users[euid@],
                Err(err) => {
                    &&& !self@.users.contains_key(euid@)
                    &&& err matches Error::NoSuchEntity(m) && m@ == euid@
                },
            },
    {
        match self.find_user(euid.as_euid()) {
            Some(i) => {
                proof {
                    lemma_assoc_get(user_entries(self.users@), i as int);
                }
                Ok(&self.users[i])
            },
            None => {
                proof {
                    lemma_assoc_contains(user_entries(self.users@), euid@);
                }
                Err(Error::NoSuchEntity(euid.as_euid().clone()))
            },
        }
    }

    /// Mutably read one user. Demands a write-user proof. Fails with
    /// no-such-entity when the id is absent. As long as the caller leaves
    /// the user's identifier unchanged and the user well formed, the store
    /// afterwards maps the identifier to the value the caller wrote.
    pub fn get_user_mut<P: WriteUser>(&mut self, euid: &UserUid, _proof: P) -> (r: Result<
        &mut User,
        Error,
    >)
        requires
            old(self).wf(),
        ensures
            r is Ok ==> ({
                let u = r->Ok_0;
                &&& old(self)@.users.contains_key(euid@)
                &&& (*u)@ == old(self)@.users[euid@]
                &&& (*u)@.uid == euid@
                &&& (*u)@.wf()
                &&& ((*final(u))@.uid == euid@ && (*final(u))@.wf()) ==> final(self).wf()
                    && final(self)@ == (StoreView {
                    users: old(self)@.users.insert(euid@, (*final(u))@),
                    ..old(self)@
                })
            }),
            r is Err ==> ({
                &&& !old(self)@.users.contains_key(euid@)
                &&& r->Err_0 matches Error::NoSuchEntity(m) && m@ == euid@
                &&& final(self)@ == old(self)@
                &&& final(self).wf()
            }),
    {
        match self.find_user(euid.as_euid()) {
            Some(i) => {
                proof {
                    lemma_assoc_get(user_entries(self.users@), i as int);
                    lemma_users_update_any(self.users@, i as int);
                }
                Ok(&mut self.users[i])
            },
            None => {
                proof {
                    lemma_assoc_contains(user_entries(self.users@), euid@);
                }
                Err(Error::NoSuchEntity(euid.as_euid().clone()))
            },
        }
    }

    /// Read one team. Demands a read-team proof. Fails with no-such-entity
    /// when the id is absent.
    pub fn get_team<P: ReadTeam>(&self, euid: &TeamUid, _proof: P) -> (r: Result<&Team, Error>)
        requires
            self.wf(),
        ensures
            match r {
                Ok(t) => self@.teams.contains_key(euid@) && t@ == self@.teams[euid@],
                Err(err) => {
                    &&& !self@.teams.contains_key(euid@)
                    &&& err matches Error::NoSuchEntity(m) && m@ == euid@
                },
            },
    {
        match self.find_team(euid.as_euid()) {
            Some(i) => {
                proof {
                    lemma_assoc_get(team_entries(self.teams@), i as int);
                }
                Ok(&self.teams[i])
            },
            None => {
                proof {
                    lemma_assoc_contains(team_entries(self.teams@), euid@);
                }
                Err(Error::NoSuchEntity(euid.as_euid().clone()))
            },
        }
    }

    // Collect every identifier, in enumeration order.
    fn euids_vec(&self) -> (r: Vec<EntityUid>)
        ensures
            r@.map_values(|e: EntityUid| e@) == self.euids_seq(),
    {
        let ghost us = self.users@.map_values(|u: User| u@.uid);
        let ghost ts = self.teams@.map_values(|t: Team| t@.uid);
        let ghost ls = self.lists@.map_values(|l: List| l@.uid);
        let mut out: Vec<EntityUid> = Vec::new();
        let mut i: usize = 0;
        proof {
            assert(out@.map_values(|e: EntityUid| e@) =~= us.take(0));
        }
        while i < self.users.len()
            invariant
                i <= self.users@.len(),
                us == self.users@.map_values(|u: User| u@.uid),
                out@.map_values(|e: EntityUid| e@) == us.take(i as int),
            decreases self.users@.len() - i,
        {
            out.push(self.users[i].uid().as_euid().clone());
            proof {
                assert(out@.map_values(|e: EntityUid| e@) =~= us.take(i as int).push(
                    us[i as int]));
                assert(us.take(i as int + 1) =~= us.take(i as int).push(us[i as int]));
            }
            i += 1;
        }
        proof {
            assert(us.take(us.len() as int) =~= us);
            assert(out@.map_values(|e: EntityUid| e@) =~= us + ts.take(0));
        }
        let mut i: usize = 0;
        while i < self.teams.len()
            invariant
                i <= self.teams@.len(),
                us == self.users@.map_values(|u: User| u@.uid),
                ts == self.teams@.map_values(|t: Team| t@.uid),
                out@.map_values(|e: EntityUid| e@) == us + ts.take(i as int),
            decreases self.teams@.len() - i,
        {
            out.push(self.teams[i].uid().as_euid().clone());
            proof {
                assert(out@.map_values(|e: EntityUid| e@) =~= (us + ts.take(i as int)).push(
                    ts[i as int]));
                assert(us + ts.take(i as int + 1) =~= (us + ts.take(i as int)).push(
                    ts[i as int]));
            }
            i += 1;
        }
        proof {
            assert(ts.take(ts.len() as int) =~= ts);
            assert(out@.map_values(|e: EntityUid| e@) =~= us + ts + ls.take(0));
        }
        let mut i: usize = 0;
        while i < self.lists.len()
            invariant
                i <= self.lists@.len(),
                us == self.users@.map_values(|u: User| u@.uid),
                ts == self.teams@.map_values(|t: Team| t@.uid),
                ls == self.lists@.map_values(|l: List| l@.uid),
                out@.map_values(|e: EntityUid| e@) == us + ts + ls.take(i as int),
            decreases self.lists@.len() - i,
        {
            out.push(self.lists[i].uid().as_euid().clone());
            proof {
                assert(out@.map_values(|e: EntityUid| e@) =~= (us + ts + ls.take(i as int)).push(
                    ls[i as int]));
                assert(us + ts + ls.take(i as int + 1) =~= (us + ts + ls.take(i as int)).push(
                    ls[i as int]));
            }
            i += 1;
        }
        out.push(self.app.euid().clone());
        proof {
            assert(ls.take(ls.len() as int) =~= ls);
            assert(out@.map_values(|e: EntityUid| e@) =~= (us + ts + ls).push(self.app@));
            assert(self.euids_seq() =~= (us + ts + ls).push(self.app@));
        }
        out
    }

    /// Every identifier in the store, including the application singleton,
    /// in enumeration order. Demands a read-all proof.
    pub fn euids<P: ReadAll>(&self, _proof: &P) -> (r: Vec<EntityUid>)
        requires
            self.wf(),
        ensures
            r@.map_values(|e: EntityUid| e@) == self.euids_seq(),
    {
        self.euids_vec()
    }

    /// Snapshot every current entity into a sealed bundle formatted for the
    /// policy engine against the given schema. Requires no proof:
    /// constructing a bundle reveals nothing; only unsealing does. A
    /// snapshot the engine's schema cannot accept is reported as an error,
    /// never truncated.
    /// The engine forms of every entity, in enumeration order: users,
    /// then teams, then lists, then the application singleton.
    pub closed spec fn engine_entity_seq(&self) -> Seq<cedar_policy::Entity> {
        self.users@.map_values(|u: User| engine::user_entity_of(u@)) + self.teams@.map_values(
            |t: Team| engine::team_entity_of(t@)) + self.lists@.map_values(
            |l: List| engine::list_entity_of(l@)) + seq![engine::app_entity_of(self.app@)]
    }

    pub fn as_entities(&self, schema: &cedar_policy::Schema) -> (r: Result<SealedBundle, Error>)
        requires
            self.wf(),
        ensures
            match r {
                Ok(b) => b@ == self.euids_seq() && engine::cedar_entities_of(
                    self.engine_entity_seq(), *schema) == Some(b.entities_spec()),
                Err(err) => err is SnapshotRejected && engine::cedar_entities_of(
                    self.engine_entity_seq(), *schema) is None,
            },
    {
        let ghost eus = self.users@.map_values(|u: User| engine::user_entity_of(u@));
        let ghost ets = self.teams@.map_values(|t: Team| engine::team_entity_of(t@));
        let ghost els = self.lists@.map_values(|l: List| engine::list_entity_of(l@));
        let mut es: Vec<cedar_policy::Entity> = Vec::new();
        let mut i: usize = 0;
        proof {
            assert(es@ =~= eus.take(0));
        }
        while i < self.users.len()
            invariant
                i <= self.users@.len(),
                eus == self.users@.map_values(|u: User| engine::user_entity_of(u@)),
                es@ == eus.take(i as int),
            decreases self.users@.len() - i,
        {
            es.push(engine::user_entity(&self.users[i]));
            proof {
                assert(eus.take(i as int + 1) =~= eus.take(i as int).push(eus[i as int]));
            }
            i += 1;
        }
        proof {
            assert(eus.take(eus.len() as int) =~= eus);
            assert(es@ =~= eus + ets.take(0));
        }
        let mut i: usize = 0;
        while i < self.teams.len()
            invariant
                i <= self.teams@.len(),
                eus == self.users@.map_values(|u: User| engine::user_entity_of(u@)),
                ets == self.teams@.map_values(|t: Team| engine::team_entity_of(t@)),
                es@ == eus + ets.take(i as int),
            decreases self.teams@.len() - i,
        {
            es.push(engine::team_entity(&self.teams[i]));
            proof {
                assert(eus + ets.take(i as int + 1) =~= (eus + ets.take(i as int)).push(
                    ets[i as int]));
            }
            i += 1;
        }
        proof {
            assert(ets.take(ets.len() as int) =~= ets);
            assert(es@ =~= eus + ets + els.take(0));
        }
        let mut i: usize = 0;
        while i < self.lists.len()
            invariant
                i <= self.lists@.len(),
                eus == self.users@.map_values(|u: User| engine::user_entity_of(u@)),
                ets == self.teams@.map_values(|t: Team| engine::team_entity_of(t@)),
                els == self.lists@.map_values(|l: List| engine::list_entity_of(l@)),
                es@ == eus + ets + els.take(i as int),
            decreases self.lists@.len() - i,
        {
            es.push(engine::list_entity(&self.lists[i]));
            proof {
                assert(eus + ets + els.take(i as int + 1) =~= (eus + ets + els.take(
                    i as int)).push(els[i as int]));
            }
            i += 1;
        }
        es.push(engine::app_entity(&self.app));
        proof {
            assert(els.take(els.len() as int) =~= els);
            assert(es@ =~= self.engine_entity_seq());
        }
        let euids = self.euids_vec();
        match engine::entities_from(es, schema) {
            Ok(entities) => Ok(SealedBundle { entities, euids }),
            Err(m) => Err(Error::SnapshotRejected(m)),
        }
    }

    /// Mutably read one team. Demands a write-team proof. Fails with
    /// no-such-entity when the id is absent. As long as the caller leaves
    /// the team's identifier unchanged and the team well formed, the store
    /// afterwards maps the identifier to the value the caller wrote.
    pub fn get_team_mut<P: WriteTeam>(&mut self, euid: &TeamUid, _proof: P) -> (r: Result<
        &mut Team,
        Error,
    >)
        requires
            old(self).wf(),
        ensures
            r is Ok ==> ({
                let t = r->Ok_0;
                &&& old(self)@.teams.contains_key(euid@)
                &&& (*t)@ == old(self)@.teams[euid@]
                &&& (*t)@.uid == euid@
                &&& (*t)@.wf()
                &&& ((*final(t))@.uid == euid@ && (*final(t))@.wf()) ==> final(self).wf()
                    && final(self)@ == (StoreView {
                    teams: old(self)@.teams.insert(euid@, (*final(t))@),
                    ..old(self)@
                })
            }),
            r is Err ==> ({
                &&& !old(self)@.teams.contains_key(euid@)
                &&& r->Err_0 matches Error::NoSuchEntity(m) && m@ == euid@
                &&& final(self)@ == old(self)@
                &&& final(self).wf()
            }),
    {
        match self.find_team(euid.as_euid()) {
            Some(i) => {
                proof {
                    lemma_assoc_get(team_entries(self.teams@), i as int);
                    lemma_teams_update_any(self.teams@, i as int);
                }
                Ok(&mut self.teams[i])
            },
            None => {
                proof {
                    lemma_assoc_contains(team_entries(self.teams@), euid@);
                }
                Err(Error::NoSuchEntity(euid.as_euid().clone()))
            },
        }
    }

    /// Mutably read one list. Demands a write-list proof. Fails with
    /// no-such-entity when the id is absent. As long as the caller leaves
    /// the list's identifier unchanged and the list well formed, the store
    /// afterwards maps the identifier to the value the caller wrote.
    pub fn get_list_mut<P: WriteList>(&mut self, euid: &ListUid, _proof: &P) -> (r: Result<
        &mut List,
        Error,
    >)
        requires
            old(self).wf(),
        ensures
            r is Ok ==> ({
                let l = r->Ok_0;
                &&& old(self)@.lists.contains_key(euid@)
                &&& (*l)@ == old(self)@.lists[euid@]
                &&& (*l)@.uid == euid@
                &&& (*l)@.wf()
                &&& ((*final(l))@.uid == euid@ && (*final(l))@.wf()) ==> final(self).wf()
                    && final(self)@ == (StoreView {
                    lists: old(self)@.lists.insert(euid@, (*final(l))@),
                    ..old(self)@
                })
            }),
            r is Err ==> ({
                &&& !old(self)@.lists.contains_key(euid@)
                &&& r->Err_0 matches Error::NoSuchEntity(m) && m@ == euid@
                &&& final(self)@ == old(self)@
                &&& final(self).wf()
            }),
    {
        match self.find_list(euid.as_euid()) {
            Some(i) => {
                proof {
                    lemma_assoc_get(list_entries(self.lists@), i as int);
                    lemma_lists_update_any(self.lists@, i as int);
                }
                Ok(&mut self.lists[i])
            },
            None => {
                proof {
                    lemma_assoc_contains(list_entries(self.lists@), euid@);
                }
                Err(Error::NoSuchEntity(euid.as_euid().clone()))
            },
        }
    }

    /// Mutably read whichever of the user or team mappings carries the id,
    /// looking at users first: users shadow teams. Demands a
    /// write-team-user proof. Fails with no-such-entity when neither
    /// mapping carries the id.
    pub fn get_user_or_team_mut<'a, P: WriteTeamUser>(
        &'a mut self,
        euid: &UserOrTeamUid,
        _proof: P,
    ) -> (r: Result<UserOrTeamMut<'a>, Error>)
        requires
            old(self).wf(),
        ensures
            r is Ok ==> (r->Ok_0 is User <==> old(self)@.users.contains_key(euid@)),
            r is Ok && r->Ok_0 is User ==> ({
                let u = r->Ok_0->User_0;
                &&& (*u)@ == old(self)@.users[euid@]
                &&& (*u)@.uid == euid@
                &&& (*u)@.wf()
                &&& ((*final(u))@.uid == euid@ && (*final(u))@.wf()) ==> final(self).wf()
                    && final(self)@ == (StoreView {
                    users: old(self)@.users.insert(euid@, (*final(u))@),
                    ..old(self)@
                })
            }),
            r is Ok && r->Ok_0 is Team ==> ({
                let t = r->Ok_0->Team_0;
                &&& old(self)@.teams.contains_key(euid@)
                &&& (*t)@ == old(self)@.teams[euid@]
                &&& (*t)@.uid == euid@
                &&& (*t)@.wf()
                &&& ((*final(t))@.uid == euid@ && (*final(t))@.wf()) ==> final(self).wf()
                    && final(self)@ == (StoreView {
                    teams: old(self)@.teams.insert(euid@, (*final(t))@),
                    ..old(self)@
                })
            }),
            r is Err ==> ({
                &&& !old(self)@.users.contains_key(euid@)
                &&& !old(self)@.teams.contains_key(euid@)
                &&& r->Err_0 matches Error::NoSuchEntity(m) && m@ == euid@
                &&& final(self)@ == old(self)@
                &&& final(self).wf()
            }),
    {
        proof {
            lemma_assoc_contains(user_entries(self.users@), euid@);
            lemma_assoc_contains(team_entries(self.teams@), euid@);
        }
        if let Some(i) = self.find_user(euid.as_euid()) {
            proof {
                lemma_assoc_get(user_entries(self.users@), i as int);
                lemma_users_update_any(self.users@, i as int);
            }
            Ok(UserOrTeamMut::User(&mut self.users[i]))
        } else if let Some(i) = self.find_team(euid.as_euid()) {
            proof {
                lemma_assoc_get(team_entries(self.teams@), i as int);
                lemma_teams_update_any(self.teams@, i as int);
            }
            Ok(UserOrTeamMut::Team(&mut self.teams[i]))
        } else {
            Err(Error::NoSuchEntity(euid.as_euid().clone()))
        }
    }

    /// Read one list. Demands a read-list proof. Fails with no-such-entity
    /// when the id is absent.
    pub fn get_list<P: ReadList>(&self, euid: &ListUid, _proof: &P) -> (r: Result<&List, Error>)
        requires
            self.wf(),
        ensures
            match r {
                Ok(l) => self@.lists.contains_key(euid@) && l@ == self@.lists[euid@],
                Err(err) => {
                    &&& !self@.lists.contains_key(euid@)
                    &&& err matches Error::NoSuchEntity(m) && m@ == euid@
                },
            },
    {
        match self.find_list(euid.as_euid()) {
            Some(i) => {
                proof {
                    lemma_assoc_get(list_entries(self.lists@), i as int);
                }
                Ok(&self.lists[i])
            },
            None => {
                proof {
                    lemma_assoc_contains(list_entries(self.lists@), euid@);
                }
                Err(Error::NoSuchEntity(euid.as_euid().clone()))
            },
        }
    }
}

} // verus!
