//! In-memory entity types: users, teams, todo lists and the application
//! singleton, each with a mathematical view and a well-formedness predicate.

use vstd::prelude::*;

use crate::uid::{EntityType, EntityUid, ListUid, TeamUid, UidView, UserOrTeamUid, UserUid};

verus! {

/// A single task on a todo list.
#[derive(Debug)]
pub struct Task {
    pub id: u64,
    pub description: String,
    pub done: bool,
}

/// Model of a task.
#[verifier::ext_equal]
pub struct TaskView {
    pub id: u64,
    pub description: Seq<char>,
    pub done: bool,
}

impl View for Task {
    type V = TaskView;

    open spec fn view(&self) -> TaskView {
        TaskView { id: self.id, description: self.description@, done: self.done }
    }
}

impl Clone for Task {
    fn clone(&self) -> (r: Self)
        ensures
            r@ == self@,
    {
        Task { id: self.id, description: self.description.clone(), done: self.done }
    }
}

/// Model of a user: its id, display name and joined teams.
#[verifier::ext_equal]
pub struct UserView {
    pub uid: UidView,
    pub name: Seq<char>,
    pub teams: Seq<UidView>,
}

impl UserView {
    /// The invariant a user enforces on its own fields: its id carries the
    /// user kind, and every joined-team id carries a principal kind.
    pub open spec fn wf(self) -> bool {
        &&& self.uid.kind == EntityType::User
        &&& forall|i: int|
            0 <= i < self.teams.len() ==> (#[trigger] self.teams[i]).kind == EntityType::User
                || self.teams[i].kind == EntityType::Team
    }
}

/// A user: id, display name, and the set of teams it has joined.
#[derive(Debug)]
pub struct User {
    uid: UserUid,
    name: String,
    teams: Vec<UserOrTeamUid>,
}

impl View for User {
    type V = UserView;

    closed spec fn view(&self) -> UserView {
        UserView {
            uid: self.uid@,
            name: self.name@,
            teams: self.teams@.map_values(|t: UserOrTeamUid| t@),
        }
    }
}

impl User {
    pub fn new(uid: UserUid, name: String, teams: Vec<UserOrTeamUid>) -> (r: User)
        requires
            uid.wf(),
            forall|i: int| 0 <= i < teams@.len() ==> (#[trigger] teams@[i]).wf(),
        ensures
            r@ == (UserView {
                uid: uid@,
                name: name@,
                teams: teams@.map_values(|t: UserOrTeamUid| t@),
            }),
            r@.wf(),
    {
        proof {
            let mapped = teams@.map_values(|t: UserOrTeamUid| t@);
            assert forall|i: int| 0 <= i < mapped.len() implies (#[trigger] mapped[i]).kind
                == EntityType::User || mapped[i].kind == EntityType::Team by {
                assert(teams@[i].wf());
            }
        }
        User { uid, name, teams }
    }

    pub fn uid(&self) -> (r: &UserUid)
        ensures
            r@ == self@.uid,
    {
        &self.uid
    }

    pub fn name(&self) -> (r: &String)
        ensures
            r@ == self@.name,
    {
        &self.name
    }

    pub fn teams(&self) -> (r: &Vec<UserOrTeamUid>)
        ensures
            r@.map_values(|t: UserOrTeamUid| t@) == self@.teams,
    {
        &self.teams
    }

    pub fn set_name(&mut self, name: String)
        ensures
            final(self)@ == (UserView { name: name@, ..old(self)@ }),
    {
        self.name = name;
    }

    /// Join a team (or, degenerately, another principal) by id.
    pub fn insert_parent(&mut self, parent: UserOrTeamUid)
        ensures
            final(self)@ == (UserView { teams: old(self)@.teams.push(parent@), ..old(self)@ }),
    {
        self.teams.push(parent);
    }
}

/// Model of a team: its id, name and parent teams.
#[verifier::ext_equal]
pub struct TeamView {
    pub uid: UidView,
    pub name: Seq<char>,
    pub parents: Seq<UidView>,
}

impl TeamView {
    /// The invariant a team enforces on its own fields: its id carries the
    /// team kind, and every parent id carries a principal kind.
    pub open spec fn wf(self) -> bool {
        &&& self.uid.kind == EntityType::Team
        &&& forall|i: int|
            0 <= i < self.parents.len() ==> (#[trigger] self.parents[i]).kind == EntityType::User
                || self.parents[i].kind == EntityType::Team
    }
}

/// A team: id, name, and the set of teams it is nested under.
#[derive(Debug)]
pub struct Team {
    uid: TeamUid,
    name: String,
    parents: Vec<UserOrTeamUid>,
}

impl View for Team {
    type V = TeamView;

    closed spec fn view(&self) -> TeamView {
        TeamView {
            uid: self.uid@,
            name: self.name@,
            parents: self.parents@.map_values(|t: UserOrTeamUid| t@),
        }
    }
}

impl Team {
    pub fn new(uid: TeamUid, name: String, parents: Vec<UserOrTeamUid>) -> (r: Team)
        requires
            uid.wf(),
            forall|i: int| 0 <= i < parents@.len() ==> (#[trigger] parents@[i]).wf(),
        ensures
            r@ == (TeamView {
                uid: uid@,
                name: name@,
                parents: parents@.map_values(|t: UserOrTeamUid| t@),
            }),
            r@.wf(),
    {
        proof {
            let mapped = parents@.map_values(|t: UserOrTeamUid| t@);
            assert forall|i: int| 0 <= i < mapped.len() implies (#[trigger] mapped[i]).kind
                == EntityType::User || mapped[i].kind == EntityType::Team by {
                assert(parents@[i].wf());
            }
        }
        Team { uid, name, parents }
    }

    pub fn uid(&self) -> (r: &TeamUid)
        ensures
            r@ == self@.uid,
    {
        &self.uid
    }

    pub fn name(&self) -> (r: &String)
        ensures
            r@ == self@.name,
    {
        &self.name
    }

    pub fn parents(&self) -> (r: &Vec<UserOrTeamUid>)
        ensures
            r@.map_values(|t: UserOrTeamUid| t@) == self@.parents,
    {
        &self.parents
    }

    pub fn set_name(&mut self, name: String)
        ensures
            final(self)@ == (TeamView { name: name@, ..old(self)@ }),
    {
        self.name = name;
    }

    /// Nest this team under another principal by id.
    pub fn insert_parent(&mut self, parent: UserOrTeamUid)
        ensures
            final(self)@ == (TeamView {
                parents: old(self)@.parents.push(parent@),
                ..old(self)@
            }),
    {
        self.parents.push(parent);
    }
}

/// Model of a todo list.
#[verifier::ext_equal]
pub struct ListView {
    pub uid: UidView,
    pub owner: UidView,
    pub name: Seq<char>,
    pub tasks: Seq<TaskView>,
    pub readers: UidView,
    pub editors: UidView,
}

impl ListView {
    /// The invariant a list enforces on its own fields: its id carries the
    /// list kind, its owner the user kind, and its reader and editor
    /// recipients a principal kind.
    pub open spec fn wf(self) -> bool {
        &&& self.uid.kind == EntityType::List
        &&& self.owner.kind == EntityType::User
        &&& self.readers.kind == EntityType::User || self.readers.kind == EntityType::Team
        &&& self.editors.kind == EntityType::User || self.editors.kind == EntityType::Team
    }
}

/// A todo list: id, owner, name, ordered tasks, and its single reader and
/// editor recipients.
#[derive(Debug)]
pub struct List {
    uid: ListUid,
    owner: UserUid,
    name: String,
    tasks: Vec<Task>,
    readers: UserOrTeamUid,
    editors: UserOrTeamUid,
}

impl View for List {
    type V = ListView;

    closed spec fn view(&self) -> ListView {
        ListView {
            uid: self.uid@,
            owner: self.owner@,
            name: self.name@,
            tasks: self.tasks@.map_values(|t: Task| t@),
            readers: self.readers@,
            editors: self.editors@,
        }
    }
}

impl List {
    pub fn new(
        uid: ListUid,
        owner: UserUid,
        name: String,
        tasks: Vec<Task>,
        readers: UserOrTeamUid,
        editors: UserOrTeamUid,
    ) -> (r: List)
        requires
            uid.wf(),
            owner.wf(),
            readers.wf(),
            editors.wf(),
        ensures
            r@ == (ListView {
                uid: uid@,
                owner: owner@,
                name: name@,
                tasks: tasks@.map_values(|t: Task| t@),
                readers: readers@,
                editors: editors@,
            }),
            r@.wf(),
    {
        List { uid, owner, name, tasks, readers, editors }
    }

    pub fn uid(&self) -> (r: &ListUid)
        ensures
            r@ == self@.uid,
    {
        &self.uid
    }

    pub fn owner(&self) -> (r: &UserUid)
        ensures
            r@ == self@.owner,
    {
        &self.owner
    }

    pub fn name(&self) -> (r: &String)
        ensures
            r@ == self@.name,
    {
        &self.name
    }

    pub fn tasks(&self) -> (r: &Vec<Task>)
        ensures
            r@.map_values(|t: Task| t@) == self@.tasks,
    {
        &self.tasks
    }

    pub fn readers(&self) -> (r: &UserOrTeamUid)
        ensures
            r@ == self@.readers,
    {
        &self.readers
    }

    pub fn editors(&self) -> (r: &UserOrTeamUid)
        ensures
            r@ == self@.editors,
    {
        &self.editors
    }

    pub fn set_name(&mut self, name: String)
        ensures
            final(self)@ == (ListView { name: name@, ..old(self)@ }),
    {
        self.name = name;
    }

    pub fn set_readers(&mut self, readers: UserOrTeamUid)
        ensures
            final(self)@ == (ListView { readers: readers@, ..old(self)@ }),
    {
        self.readers = readers;
    }

    pub fn set_editors(&mut self, editors: UserOrTeamUid)
        ensures
            final(self)@ == (ListView { editors: editors@, ..old(self)@ }),
    {
        self.editors = editors;
    }

    /// Append a task at the end of the ordered task sequence.
    pub fn push_task(&mut self, task: Task)
        ensures
            final(self)@ == (ListView { tasks: old(self)@.tasks.push(task@), ..old(self)@ }),
    {
        self.tasks.push(task);
    }

    /// Remove the task at the given position.
    pub fn remove_task(&mut self, i: usize) -> (r: Task)
        requires
            i < old(self)@.tasks.len(),
        ensures
            r@ == old(self)@.tasks[i as int],
            final(self)@ == (ListView { tasks: old(self)@.tasks.remove(i as int), ..old(self)@ }),
    {
        self.tasks.remove(i)
    }
}

/// The application singleton's fixed identifier.
pub open spec fn application_uid() -> UidView {
    UidView { kind: EntityType::Application, id: "TinyTodo"@ }
}

/// The application singleton. It has no mutable attributes and is never
/// created or destroyed by store operations.
#[derive(Debug)]
pub struct Application {
    euid: EntityUid,
}

impl View for Application {
    type V = UidView;

    closed spec fn view(&self) -> UidView {
        self.euid@
    }
}

impl Application {
    pub fn new() -> (r: Application)
        ensures
            r@ == application_uid(),
    {
        Application { euid: EntityUid::new(EntityType::Application, "TinyTodo".to_owned()) }
    }

    pub fn euid(&self) -> (r: &EntityUid)
        ensures
            r@ == self@,
    {
        &self.euid
    }
}

impl Default for Application {
    fn default() -> (r: Application)
        ensures
            r@ == application_uid(),
    {
        Application::new()
    }
}

} // verus!
